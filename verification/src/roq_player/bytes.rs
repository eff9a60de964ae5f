//! Reading little-endian values out of a chunk's bytes.

use byteorder::ByteOrder;
use vstd::prelude::*;
use vstd::slice::slice_subrange;

verus! {

/// What can go wrong while a stream is decoded.
#[derive(Debug)]
pub enum RoqError {
    /// The bytes ran out in the middle of a value that was still owed.
    IOError,
    /// The stream does not start with the RoQ signature.
    ParseError,
}

/// The 16-bit value whose little-endian encoding starts at `at`.
pub open spec fn le_u16(bytes: Seq<u8>, at: int) -> int {
    bytes[at] as int + 256 * (bytes[at + 1] as int)
}

/// The 32-bit value whose little-endian encoding starts at `at`.
pub open spec fn le_u32(bytes: Seq<u8>, at: int) -> int {
    bytes[at] as int + 256 * (bytes[at + 1] as int) + 65536 * (bytes[at + 2] as int) + 16777216 * (
    bytes[at + 3] as int)
}

/// `byteorder::LittleEndian::read_u16`: decodes the first two bytes of `buf`,
/// least significant byte first. The crate panics on a shorter buffer, which
/// the precondition excludes.
#[verifier::external_body]
fn decode_le_u16(buf: &[u8]) -> (value: u16)
    requires
        buf@.len() >= 2,
    ensures
        value as int == le_u16(buf@, 0),
{
    byteorder::LittleEndian::read_u16(buf)
}

/// `byteorder::LittleEndian::read_u32`: decodes the first four bytes of
/// `buf`, least significant byte first. The crate panics on a shorter buffer,
/// which the precondition excludes.
#[verifier::external_body]
fn decode_le_u32(buf: &[u8]) -> (value: u32)
    requires
        buf@.len() >= 4,
    ensures
        value as int == le_u32(buf@, 0),
{
    byteorder::LittleEndian::read_u32(buf)
}

/// A forward-only reader over a byte slice.
pub struct ByteReader<'a> {
    data: &'a [u8],
    pos: usize,
}

impl<'a> ByteReader<'a> {
    #[verifier::type_invariant]
    spec fn in_bounds(self) -> bool {
        self.pos <= self.data@.len()
    }

    /// All the bytes the reader was made over, read or not.
    pub closed spec fn bytes(&self) -> Seq<u8> {
        self.data@
    }

    /// How many bytes have been read.
    pub closed spec fn position(&self) -> int {
        self.pos as int
    }

    /// How many bytes are left to read.
    pub open spec fn left(&self) -> int {
        self.bytes().len() - self.position()
    }

    /// A reader at the start of `data`.
    pub fn new(data: &'a [u8]) -> (reader: Self)
        ensures
            reader.bytes() == data@,
            reader.position() == 0,
    {
        ByteReader { data, pos: 0 }
    }

    /// A reader over `data` that has read the first `pos` bytes.
    pub fn starting_at(data: &'a [u8], pos: usize) -> (reader: Self)
        requires
            pos <= data@.len(),
        ensures
            reader.bytes() == data@,
            reader.position() == pos,
    {
        ByteReader { data, pos }
    }

    /// The number of bytes not yet read.
    pub fn remaining(&self) -> (n: usize)
        ensures
            n == self.left(),
            0 <= self.position() <= self.bytes().len(),
    {
        proof {
            use_type_invariant(self);
        }
        self.data.len() - self.pos
    }

    /// Reads one byte. Fails, without moving, when none is left.
    pub fn read_u8(&mut self) -> (r: Result<u8, RoqError>)
        ensures
            final(self).bytes() == old(self).bytes(),
            0 <= old(self).position() <= old(self).bytes().len(),
            old(self).left() >= 1 ==> r == Ok::<u8, RoqError>(
                old(self).bytes()[old(self).position()],
            ) && final(self).position() == old(self).position() + 1,
            old(self).left() < 1 ==> r == Err::<u8, RoqError>(RoqError::IOError)
                && final(self).position() == old(self).position(),
    {
        proof {
            use_type_invariant(&*self);
        }
        if self.pos < self.data.len() {
            let b = self.data[self.pos];
            self.pos = self.pos + 1;
            Ok(b)
        } else {
            Err(RoqError::IOError)
        }
    }

    /// Reads a little-endian `u16`. Fails, without moving, when fewer than
    /// two bytes are left.
    pub fn read_u16(&mut self) -> (r: Result<u16, RoqError>)
        ensures
            final(self).bytes() == old(self).bytes(),
            0 <= old(self).position() <= old(self).bytes().len(),
            old(self).left() >= 2 ==> r is Ok && r->Ok_0 as int == le_u16(
                old(self).bytes(),
                old(self).position(),
            ) && final(self).position() == old(self).position() + 2,
            old(self).left() < 2 ==> r == Err::<u16, RoqError>(RoqError::IOError)
                && final(self).position() == old(self).position(),
    {
        proof {
            use_type_invariant(&*self);
        }
        if self.data.len() - self.pos >= 2 {
            let field = slice_subrange(self.data, self.pos, self.pos + 2);
            let value = decode_le_u16(field);
            self.pos = self.pos + 2;
            Ok(value)
        } else {
            Err(RoqError::IOError)
        }
    }

    /// Reads a little-endian `u32`. Fails, without moving, when fewer than
    /// four bytes are left.
    pub fn read_u32(&mut self) -> (r: Result<u32, RoqError>)
        ensures
            final(self).bytes() == old(self).bytes(),
            0 <= old(self).position() <= old(self).bytes().len(),
            old(self).left() >= 4 ==> r is Ok && r->Ok_0 as int == le_u32(
                old(self).bytes(),
                old(self).position(),
            ) && final(self).position() == old(self).position() + 4,
            old(self).left() < 4 ==> r == Err::<u32, RoqError>(RoqError::IOError)
                && final(self).position() == old(self).position(),
    {
        proof {
            use_type_invariant(&*self);
        }
        if self.data.len() - self.pos >= 4 {
            let field = slice_subrange(self.data, self.pos, self.pos + 4);
            let value = decode_le_u32(field);
            self.pos = self.pos + 4;
            Ok(value)
        } else {
            Err(RoqError::IOError)
        }
    }

    /// Hands out the next `n` bytes. Fails, without moving, when fewer than
    /// `n` are left.
    pub fn read_bytes(&mut self, n: usize) -> (r: Result<&'a [u8], RoqError>)
        ensures
            final(self).bytes() == old(self).bytes(),
            0 <= old(self).position() <= old(self).bytes().len(),
            old(self).left() >= n ==> r is Ok && r->Ok_0@ == old(self).bytes().subrange(
                old(self).position(),
                old(self).position() + n,
            ) && final(self).position() == old(self).position() + n,
            old(self).left() < n ==> r is Err && r->Err_0 is IOError && final(self).position()
                == old(self).position(),
    {
        proof {
            use_type_invariant(&*self);
        }
        if self.data.len() - self.pos >= n {
            let field = slice_subrange(self.data, self.pos, self.pos + n);
            self.pos = self.pos + n;
            Ok(field)
        } else {
            Err(RoqError::IOError)
        }
    }
}

} // verus!
