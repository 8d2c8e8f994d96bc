//! A cursor over bytes that are already in memory.

use crate::bytes::{be_u16, be_u24, be_u32, le_u32};
use crate::bytes::{read_u16_be, read_u24_be, read_u32_be, read_u32_le};
use crate::error::Error;
use vstd::prelude::*;
use vstd::slice::slice_subrange;

verus! {

/// Reads a byte slice front to back. Its view is what has not been read yet.
///
/// Every read either hands out all the bytes asked for or fails with
/// [`Error::TruncatedPayload`] and leaves the reader where it was.
#[derive(Clone, Copy, Debug)]
pub struct SliceReader<'a> {
    slice: &'a [u8],
}

impl<'a> View for SliceReader<'a> {
    type V = Seq<u8>;

    closed spec fn view(&self) -> Seq<u8> {
        self.slice@
    }
}

impl<'a> SliceReader<'a> {
    pub fn new(slice: &'a [u8]) -> (reader: SliceReader<'a>)
        ensures
            reader@ == slice@,
    {
        SliceReader { slice }
    }

    /// How many bytes are left.
    pub fn remaining(&self) -> (n: usize)
        ensures
            n == self@.len(),
    {
        self.slice.len()
    }

    /// The unread bytes, without consuming them.
    pub fn rest(&self) -> (bytes: &'a [u8])
        ensures
            bytes@ == self@,
    {
        self.slice
    }

    /// Takes the next `size` bytes.
    pub fn read(&mut self, size: usize) -> (r: Result<&'a [u8], Error>)
        ensures
            match r {
                Ok(bytes) => size <= old(self)@.len() && bytes@ == old(self)@.subrange(
                    0,
                    size as int,
                ) && final(self)@ == old(self)@.skip(size as int),
                Err(e) => size > old(self)@.len() && e == Error::TruncatedPayload && final(self)@
                    == old(self)@,
            },
    {
        let len = self.slice.len();
        if size > len {
            return Err(Error::TruncatedPayload);
        }
        let taken = slice_subrange(self.slice, 0, size);
        self.slice = slice_subrange(self.slice, size, len);
        Ok(taken)
    }

    /// Takes one byte.
    pub fn read_u8(&mut self) -> (r: Result<u8, Error>)
        ensures
            match r {
                Ok(n) => old(self)@.len() >= 1 && n == old(self)@[0] && final(self)@ == old(
                    self,
                )@.skip(1),
                Err(e) => old(self)@.len() < 1 && e == Error::TruncatedPayload && final(self)@
                    == old(self)@,
            },
    {
        let bytes = self.read(1)?;
        Ok(bytes[0])
    }

    /// Takes a big-endian integer of two bytes.
    pub fn read_u16_be(&mut self) -> (r: Result<u16, Error>)
        ensures
            match r {
                Ok(n) => old(self)@.len() >= 2 && n == be_u16(old(self)@) && final(self)@ == old(
                    self,
                )@.skip(2),
                Err(e) => old(self)@.len() < 2 && e == Error::TruncatedPayload && final(self)@
                    == old(self)@,
            },
    {
        let bytes = self.read(2)?;
        Ok(read_u16_be(bytes))
    }

    /// Takes a big-endian integer of three bytes.
    pub fn read_u24_be(&mut self) -> (r: Result<u32, Error>)
        ensures
            match r {
                Ok(n) => old(self)@.len() >= 3 && n == be_u24(old(self)@) && final(self)@ == old(
                    self,
                )@.skip(3),
                Err(e) => old(self)@.len() < 3 && e == Error::TruncatedPayload && final(self)@
                    == old(self)@,
            },
    {
        let bytes = self.read(3)?;
        Ok(read_u24_be(bytes))
    }

    /// Takes a big-endian integer of four bytes.
    pub fn read_u32_be(&mut self) -> (r: Result<u32, Error>)
        ensures
            match r {
                Ok(n) => old(self)@.len() >= 4 && n == be_u32(old(self)@) && final(self)@ == old(
                    self,
                )@.skip(4),
                Err(e) => old(self)@.len() < 4 && e == Error::TruncatedPayload && final(self)@
                    == old(self)@,
            },
    {
        let bytes = self.read(4)?;
        Ok(read_u32_be(bytes))
    }

    /// Takes a little-endian integer of four bytes.
    pub fn read_u32_le(&mut self) -> (r: Result<u32, Error>)
        ensures
            match r {
                Ok(n) => old(self)@.len() >= 4 && n == le_u32(old(self)@) && final(self)@ == old(
                    self,
                )@.skip(4),
                Err(e) => old(self)@.len() < 4 && e == Error::TruncatedPayload && final(self)@
                    == old(self)@,
            },
    {
        let bytes = self.read(4)?;
        Ok(read_u32_le(bytes))
    }
}

} // verus!
