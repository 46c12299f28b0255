//! A forward-only read cursor over a byte buffer.

use vstd::prelude::*;
use crate::error::Error;
use crate::grammar::{
    group_tail, is_tail_of, peek_u8, take_bool, take_double, take_string, take_text, take_u16,
    take_u16_optim, take_u32, take_u32_optim, take_u8, take_version, take_version48,
};
use crate::version::{Version, Version48};

verus! {

broadcast use group_tail;

/// Reads values off the front of a borrowed buffer. Its view is the
/// sequence of bytes not yet read.
pub struct Deserialiser<'a> {
    byte_slice: &'a [u8],
}

impl<'a> View for Deserialiser<'a> {
    type V = Seq<u8>;

    closed spec fn view(&self) -> Seq<u8> {
        self.byte_slice@
    }
}

/// Calls `std::str::from_utf8`. Taken on trust, not proved: it succeeds
/// exactly on well-formed UTF-8, and the string that it then gives holds the
/// characters that the bytes encode.
#[verifier::external_body]
fn str_from_utf8(bytes: &[u8]) -> (r: Result<&str, std::str::Utf8Error>)
    ensures
        r is Ok <==> vstd::utf8::valid_utf8(bytes@),
        r matches Ok(s) ==> s@ == vstd::utf8::decode_utf8(bytes@),
{
    std::str::from_utf8(bytes)
}

impl<'a> Deserialiser<'a> {
    /// A cursor at the start of `input`.
    pub fn new(input: &'a [u8]) -> (d: Self)
        ensures
            d@ == input@,
    {
        Deserialiser { byte_slice: input }
    }

    /// The bytes not yet read.
    pub fn remaining(&self) -> (rest: &'a [u8])
        ensures
            rest@ == self@,
    {
        self.byte_slice
    }

    /// The next byte, without moving; `Eof` at the end of the buffer.
    pub fn peek_u8(&mut self) -> (r: Result<u8, Error>)
        ensures
            final(self)@ == old(self)@,
            match peek_u8(old(self)@) {
                Ok(b) => r == Ok::<u8, Error>(b),
                Err(f) => r matches Err(e) && e@ == f,
            },
    {
        if self.byte_slice.len() == 0 {
            Err(Error::Eof)
        } else {
            Ok(self.byte_slice[0])
        }
    }

    /// Moves the cursor `n` bytes on.
    fn advance(&mut self, n: usize)
        requires
            n <= old(self)@.len(),
        ensures
            final(self)@ == old(self)@.skip(n as int),
            is_tail_of(final(self)@, old(self)@),
    {
        let len = self.byte_slice.len();
        self.byte_slice = &self.byte_slice[n..len];
    }

    /// Reads one byte; `Eof` at the end of the buffer.
    pub fn next_u8(&mut self) -> (r: Result<u8, Error>)
        ensures
            is_tail_of(final(self)@, old(self)@),
            match take_u8(old(self)@) {
                Ok((b, rest)) => r == Ok::<u8, Error>(b) && final(self)@ == rest,
                Err(f) => r matches Err(e) && e@ == f && final(self)@ == old(self)@,
            },
    {
        let b = self.peek_u8()?;
        self.advance(1);
        Ok(b)
    }

    /// Reads two bytes as a little-endian number; a slicing error where
    /// fewer remain.
    pub fn next_u16(&mut self) -> (r: Result<u16, Error>)
        ensures
            is_tail_of(final(self)@, old(self)@),
            match take_u16(old(self)@) {
                Ok((v, rest)) => r == Ok::<u16, Error>(v) && final(self)@ == rest,
                Err(f) => r matches Err(e) && e@ == f && final(self)@ == old(self)@,
            },
    {
        if self.byte_slice.len() < 2 {
            return Err(Error::ByteSlicingError);
        }
        let v: u16 = self.byte_slice[0] as u16 + 0x100 * (self.byte_slice[1] as u16);
        self.advance(2);
        Ok(v)
    }

    /// Reads a 16-bit number in the space-saving form.
    pub fn next_u16_optim(&mut self) -> (r: Result<u16, Error>)
        ensures
            is_tail_of(final(self)@, old(self)@),
            match take_u16_optim(old(self)@) {
                Ok((v, rest)) => r == Ok::<u16, Error>(v) && final(self)@ == rest,
                Err(f) => r matches Err(e) && e@ == f,
            },
    {
        let byte = self.next_u8()?;
        if byte != 0xFF {
            Ok(byte as u16)
        } else {
            self.next_u16()
        }
    }

    /// Reads four bytes as a little-endian number; a slicing error where
    /// fewer remain.
    pub fn next_u32(&mut self) -> (r: Result<u32, Error>)
        ensures
            is_tail_of(final(self)@, old(self)@),
            match take_u32(old(self)@) {
                Ok((v, rest)) => r == Ok::<u32, Error>(v) && final(self)@ == rest,
                Err(f) => r matches Err(e) && e@ == f && final(self)@ == old(self)@,
            },
    {
        if self.byte_slice.len() < 4 {
            return Err(Error::ByteSlicingError);
        }
        let v: u32 = self.byte_slice[0] as u32 + 0x100 * (self.byte_slice[1] as u32) + 0x1_0000 * (
        self.byte_slice[2] as u32) + 0x100_0000 * (self.byte_slice[3] as u32);
        self.advance(4);
        Ok(v)
    }

    /// Reads a 32-bit number in the space-saving form.
    pub fn next_u32_optim(&mut self) -> (r: Result<u32, Error>)
        ensures
            is_tail_of(final(self)@, old(self)@),
            match take_u32_optim(old(self)@) {
                Ok((v, rest)) => r == Ok::<u32, Error>(v) && final(self)@ == rest,
                Err(f) => r matches Err(e) && e@ == f,
            },
    {
        let so_byte = self.next_u8()?;
        if so_byte != 0xFF {
            Ok(so_byte as u32)
        } else {
            self.next_u32()
        }
    }

    /// Reads one byte as a boolean: exactly 1 is true.
    pub fn parse_bool(&mut self) -> (r: Result<bool, Error>)
        ensures
            is_tail_of(final(self)@, old(self)@),
            match take_bool(old(self)@) {
                Ok((b, rest)) => r == Ok::<bool, Error>(b) && final(self)@ == rest,
                Err(f) => r matches Err(e) && e@ == f && final(self)@ == old(self)@,
            },
    {
        let b = self.next_u8()?;
        Ok(b == 1)
    }

    /// Reads the eight bytes of a little-endian double and gives its bits.
    pub fn parse_double(&mut self) -> (r: Result<u64, Error>)
        ensures
            is_tail_of(final(self)@, old(self)@),
            match take_double(old(self)@) {
                Ok((bits, rest)) => r == Ok::<u64, Error>(bits) && final(self)@ == rest,
                Err(f) => r matches Err(e) && e@ == f && final(self)@ == old(self)@,
            },
    {
        if self.byte_slice.len() < 8 {
            return Err(Error::ByteSlicingError);
        }
        let low: u32 = self.byte_slice[0] as u32 + 0x100 * (self.byte_slice[1] as u32) + 0x1_0000
            * (self.byte_slice[2] as u32) + 0x100_0000 * (self.byte_slice[3] as u32);
        let high: u32 = self.byte_slice[4] as u32 + 0x100 * (self.byte_slice[5] as u32) + 0x1_0000
            * (self.byte_slice[6] as u32) + 0x100_0000 * (self.byte_slice[7] as u32);
        let bits: u64 = low as u64 + 0x1_0000_0000 * (high as u64);
        self.advance(8);
        Ok(bits)
    }

    /// Reads a string as a property tree holds it.
    pub fn parse_string(&mut self) -> (r: Result<String, Error>)
        ensures
            is_tail_of(final(self)@, old(self)@),
            match take_string(old(self)@, true) {
                Ok((text, rest)) => r matches Ok(s) && s@ == text && final(self)@ == rest,
                Err(f) => r matches Err(e) && e@ == f,
            },
    {
        self._parse_string(true)
    }

    /// Reads a string as a save header holds it.
    pub fn parse_string_saveheader(&mut self) -> (r: Result<String, Error>)
        ensures
            is_tail_of(final(self)@, old(self)@),
            match take_string(old(self)@, false) {
                Ok((text, rest)) => r matches Ok(s) && s@ == text && final(self)@ == rest,
                Err(f) => r matches Err(e) && e@ == f,
            },
    {
        self._parse_string(false)
    }

    /// Reads a string in either convention.
    pub fn _parse_string(&mut self, has_empty_indicator: bool) -> (r: Result<String, Error>)
        ensures
            is_tail_of(final(self)@, old(self)@),
            match take_string(old(self)@, has_empty_indicator) {
                Ok((text, rest)) => r matches Ok(s) && s@ == text && final(self)@ == rest,
                Err(f) => r matches Err(e) && e@ == f,
            },
    {
        proof {
            reveal(take_text);
        }
        if has_empty_indicator && self.parse_bool()? {
            Ok(String::new())
        } else {
            let len = self.next_u32_optim()?;
            let len = len as usize;
            if self.byte_slice.len() < len {
                return Err(Error::ByteSlicingError);
            }
            let next_slice = &self.byte_slice[0..len];
            let utf8 = match str_from_utf8(next_slice) {
                Ok(s) => s.to_owned(),
                Err(e) => {
                    return Err(Error::Utf8(e));
                },
            };
            self.advance(len);
            Ok(utf8)
        }
    }

    /// Reads a full version.
    pub fn parse_version(&mut self) -> (r: Result<Version, Error>)
        ensures
            is_tail_of(final(self)@, old(self)@),
            match take_version(old(self)@) {
                Ok((v, rest)) => r == Ok::<Version, Error>(v) && final(self)@ == rest,
                Err(f) => r matches Err(e) && e@ == f,
            },
    {
        let main = self.next_u16()?;
        let major = self.next_u16()?;
        let minor = self.next_u16()?;
        let developer = self.next_u16()?;
        Ok(Version { main, major, minor, developer })
    }

    /// Reads a compact version.
    pub fn parse_version48(&mut self) -> (r: Result<Version48, Error>)
        ensures
            is_tail_of(final(self)@, old(self)@),
            match take_version48(old(self)@) {
                Ok((v, rest)) => r == Ok::<Version48, Error>(v) && final(self)@ == rest,
                Err(f) => r matches Err(e) && e@ == f,
            },
    {
        let main = self.next_u16_optim()?;
        let major = self.next_u16_optim()?;
        let minor = self.next_u16_optim()?;
        Ok(Version48 { main, major, minor })
    }
}

} // verus!
