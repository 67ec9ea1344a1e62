use vstd::prelude::*;

verus! {

/// Failure of a read against a `Raf`: the requested bytes run past the end of the data.
#[derive(Debug, Clone, Copy, PartialEq, Eq, Structural)]
pub enum RafError {
    ReadOutOfBounds,
}

/// A random-access reader over an in-memory file image with a movable cursor.
pub struct Raf {
    pub data: Vec<u8>,
    pub pos: usize,
}

/// True when `n` bytes can be read at position `p` of `d`.
pub open spec fn fits(d: Seq<u8>, p: int, n: int) -> bool {
    0 <= p && p + n <= d.len()
}

/// Unsigned little-endian value of the two bytes at `p`.
pub open spec fn le_u16(d: Seq<u8>, p: int) -> int {
    d[p] as int + 256 * d[p + 1] as int
}

/// Unsigned little-endian value of the four bytes at `p`.
pub open spec fn le_u32(d: Seq<u8>, p: int) -> int {
    d[p] as int + 256 * d[p + 1] as int + 65536 * d[p + 2] as int + 16777216 * d[p + 3] as int
}

/// Signed (two's complement) little-endian value of the two bytes at `p`.
pub open spec fn le_i16(d: Seq<u8>, p: int) -> int {
    if le_u16(d, p) < 32768 { le_u16(d, p) } else { le_u16(d, p) - 65536 }
}

/// Signed (two's complement) little-endian value of the four bytes at `p`.
pub open spec fn le_i32(d: Seq<u8>, p: int) -> int {
    if le_u32(d, p) < 2147483648 { le_u32(d, p) } else { le_u32(d, p) - 4294967296 }
}

/// Signed value of the byte at `p`.
pub open spec fn byte_i8(d: Seq<u8>, p: int) -> int {
    if d[p] < 128 { d[p] as int } else { d[p] - 256 }
}

/// Index of the first zero byte at or after `p`, or -1 when there is none.
pub open spec fn zero_index(d: Seq<u8>, p: int) -> int
    decreases d.len() - p,
{
    if p < 0 || p >= d.len() {
        -1
    } else if d[p] == 0 {
        p
    } else {
        zero_index(d, p + 1)
    }
}

/// The bytes from `p` up to, not including, the first zero byte at or after `p`.
pub open spec fn cstr_bytes(d: Seq<u8>, p: int) -> Seq<u8> {
    d.subrange(p, zero_index(d, p))
}

/// What `String::from_utf8_lossy` makes of a byte sequence.
pub uninterp spec fn utf8_lossy(b: Seq<u8>) -> Seq<char>;

/// Relies on `String::from_utf8_lossy`: the text decoded from the bytes, each invalid
/// sequence replaced by U+FFFD; it depends on the bytes alone and is empty for no bytes.
#[verifier::external_body]
fn lossy_string(b: &Vec<u8>) -> (r: String)
    ensures
        r@ == utf8_lossy(b@),
        b@.len() == 0 ==> r@.len() == 0,
{
    String::from_utf8_lossy(b.as_slice()).into_owned()
}

impl Raf {
    pub fn new(data: Vec<u8>) -> (r: Raf)
        ensures
            r.data@ == data@,
            r.pos == 0,
    {
        Raf { data, pos: 0 }
    }

    /// Moves the cursor to an absolute position.
    pub fn seek(&mut self, pos: usize)
        ensures
            final(self).data@ == old(self).data@,
            final(self).pos == pos,
    {
        self.pos = pos;
    }

    /// Moves the cursor forward by `n` bytes.
    pub fn adv(&mut self, n: usize)
        requires
            old(self).pos + n <= usize::MAX,
        ensures
            final(self).data@ == old(self).data@,
            final(self).pos == old(self).pos + n,
    {
        self.pos = self.pos + n;
    }

    pub fn read_u8(&mut self) -> (r: Result<u8, RafError>)
        ensures
            final(self).data@ == old(self).data@,
            fits(old(self).data@, old(self).pos as int, 1) ==> r == Ok::<u8, RafError>(
                old(self).data@[old(self).pos as int],
            ) && final(self).pos == old(self).pos + 1,
            !fits(old(self).data@, old(self).pos as int, 1) ==> r == Err::<u8, RafError>(
                RafError::ReadOutOfBounds,
            ) && final(self).pos == old(self).pos,
    {
        if self.pos < self.data.len() {
            let b = self.data[self.pos];
            self.pos = self.pos + 1;
            Ok(b)
        } else {
            Err(RafError::ReadOutOfBounds)
        }
    }

    pub fn read_i8(&mut self) -> (r: Result<i8, RafError>)
        ensures
            final(self).data@ == old(self).data@,
            fits(old(self).data@, old(self).pos as int, 1) ==> r is Ok && r->Ok_0 == byte_i8(
                old(self).data@,
                old(self).pos as int,
            ) && final(self).pos == old(self).pos + 1,
            !fits(old(self).data@, old(self).pos as int, 1) ==> r == Err::<i8, RafError>(
                RafError::ReadOutOfBounds,
            ) && final(self).pos == old(self).pos,
    {
        match self.read_u8() {
            Ok(b) => if b < 128 {
                Ok(b as i8)
            } else {
                Ok((b as i16 - 256) as i8)
            },
            Err(e) => Err(e),
        }
    }

    pub fn read_u16(&mut self) -> (r: Result<u16, RafError>)
        ensures
            final(self).data@ == old(self).data@,
            fits(old(self).data@, old(self).pos as int, 2) ==> r is Ok && r->Ok_0 == le_u16(
                old(self).data@,
                old(self).pos as int,
            ) && final(self).pos == old(self).pos + 2,
            !fits(old(self).data@, old(self).pos as int, 2) ==> r == Err::<u16, RafError>(
                RafError::ReadOutOfBounds,
            ) && final(self).pos == old(self).pos,
    {
        if self.pos < self.data.len() && self.data.len() - self.pos >= 2 {
            let b0 = self.data[self.pos] as u16;
            let b1 = self.data[self.pos + 1] as u16;
            self.pos = self.pos + 2;
            Ok(b0 + 256 * b1)
        } else {
            Err(RafError::ReadOutOfBounds)
        }
    }

    pub fn read_i16(&mut self) -> (r: Result<i16, RafError>)
        ensures
            final(self).data@ == old(self).data@,
            fits(old(self).data@, old(self).pos as int, 2) ==> r is Ok && r->Ok_0 == le_i16(
                old(self).data@,
                old(self).pos as int,
            ) && final(self).pos == old(self).pos + 2,
            !fits(old(self).data@, old(self).pos as int, 2) ==> r == Err::<i16, RafError>(
                RafError::ReadOutOfBounds,
            ) && final(self).pos == old(self).pos,
    {
        match self.read_u16() {
            Ok(v) => if v < 32768 {
                Ok(v as i16)
            } else {
                Ok((v as i32 - 65536) as i16)
            },
            Err(e) => Err(e),
        }
    }

    pub fn read_u32(&mut self) -> (r: Result<u32, RafError>)
        ensures
            final(self).data@ == old(self).data@,
            fits(old(self).data@, old(self).pos as int, 4) ==> r is Ok && r->Ok_0 == le_u32(
                old(self).data@,
                old(self).pos as int,
            ) && final(self).pos == old(self).pos + 4,
            !fits(old(self).data@, old(self).pos as int, 4) ==> r == Err::<u32, RafError>(
                RafError::ReadOutOfBounds,
            ) && final(self).pos == old(self).pos,
    {
        if self.pos < self.data.len() && self.data.len() - self.pos >= 4 {
            let b0 = self.data[self.pos] as u32;
            let b1 = self.data[self.pos + 1] as u32;
            let b2 = self.data[self.pos + 2] as u32;
            let b3 = self.data[self.pos + 3] as u32;
            self.pos = self.pos + 4;
            Ok(b0 + 256 * b1 + 65536 * b2 + 16777216 * b3)
        } else {
            Err(RafError::ReadOutOfBounds)
        }
    }

    pub fn read_i32(&mut self) -> (r: Result<i32, RafError>)
        ensures
            final(self).data@ == old(self).data@,
            fits(old(self).data@, old(self).pos as int, 4) ==> r is Ok && r->Ok_0 == le_i32(
                old(self).data@,
                old(self).pos as int,
            ) && final(self).pos == old(self).pos + 4,
            !fits(old(self).data@, old(self).pos as int, 4) ==> r == Err::<i32, RafError>(
                RafError::ReadOutOfBounds,
            ) && final(self).pos == old(self).pos,
    {
        match self.read_u32() {
            Ok(v) => if v < 2147483648 {
                Ok(v as i32)
            } else {
                Ok((v as i64 - 4294967296) as i32)
            },
            Err(e) => Err(e),
        }
    }

    /// Reads exactly `n` bytes at the cursor.
    pub fn read_bytes(&mut self, n: usize) -> (r: Result<Vec<u8>, RafError>)
        ensures
            final(self).data@ == old(self).data@,
            fits(old(self).data@, old(self).pos as int, n as int) ==> r is Ok && r->Ok_0@
                == old(self).data@.subrange(old(self).pos as int, old(self).pos + n)
                && final(self).pos == old(self).pos + n,
            !fits(old(self).data@, old(self).pos as int, n as int) ==> r == Err::<Vec<u8>, RafError>(
                RafError::ReadOutOfBounds,
            ) && final(self).pos == old(self).pos,
    {
        if self.pos <= self.data.len() && self.data.len() - self.pos >= n {
            let mut out: Vec<u8> = Vec::new();
            let mut i: usize = self.pos;
            let end: usize = self.pos + n;
            while i < end
                invariant
                    self.pos <= i <= end,
                    end == self.pos + n,
                    end <= self.data@.len(),
                    out@ == self.data@.subrange(self.pos as int, i as int),
                decreases end - i,
            {
                out.push(self.data[i]);
                i = i + 1;
                assert(out@ =~= self.data@.subrange(self.pos as int, i as int));
            }
            self.pos = end;
            Ok(out)
        } else {
            Err(RafError::ReadOutOfBounds)
        }
    }

    /// Reads a zero-terminated string at the cursor and consumes its terminator.
    /// The bytes before the terminator are decoded as UTF-8, invalid sequences replaced.
    pub fn read_cstr(&mut self) -> (r: Result<String, RafError>)
        ensures
            final(self).data@ == old(self).data@,
            zero_index(old(self).data@, old(self).pos as int) >= 0 ==> r is Ok && r->Ok_0@
                == utf8_lossy(
                cstr_bytes(old(self).data@, old(self).pos as int),
            ) && final(self).pos == zero_index(old(self).data@, old(self).pos as int) + 1,
            zero_index(old(self).data@, old(self).pos as int) < 0 ==> r == Err::<String, RafError>(
                RafError::ReadOutOfBounds,
            ) && final(self).pos == old(self).pos,
    {
        let ghost d = self.data@;
        let ghost p = self.pos as int;
        let mut bytes: Vec<u8> = Vec::new();
        let mut i: usize = self.pos;
        while i < self.data.len() && self.data[i] != 0
            invariant
                d == self.data@,
                p == self.pos,
                p <= i,
                zero_index(d, p) == zero_index(d, i as int),
                p <= d.len() ==> bytes@ =~= d.subrange(p, i as int),
            decreases self.data@.len() - i,
        {
            bytes.push(self.data[i]);
            i = i + 1;
            assert(bytes@ =~= d.subrange(p, i as int));
        }
        if i < self.data.len() {
            self.pos = i + 1;
            Ok(lossy_string(&bytes))
        } else {
            Err(RafError::ReadOutOfBounds)
        }
    }
}

} // verus!
