//! An append-only accumulator of bytes.

use vstd::prelude::*;
use crate::layout::{bool_bytes, string_bytes, u16_bytes, u32_bytes, u64_bytes, version_bytes};
use crate::version::Version;

verus! {

/// Collects the bytes of an encoding. Its view is the bytes written so far.
pub struct Serialiser {
    pub bytes: Vec<u8>,
}

impl View for Serialiser {
    type V = Seq<u8>;

    open spec fn view(&self) -> Seq<u8> {
        self.bytes@
    }
}

impl Serialiser {
    /// A writer that holds no bytes yet.
    pub fn new() -> (s: Self)
        ensures
            s@ == Seq::<u8>::empty(),
    {
        Serialiser { bytes: Vec::new() }
    }

    /// Appends one byte.
    pub fn write_u8(&mut self, value: u8)
        ensures
            final(self)@ == old(self)@.push(value),
    {
        self.bytes.push(value)
    }

    /// Appends the two little-endian bytes of `value`.
    pub fn write_u16(&mut self, value: u16)
        ensures
            final(self)@ == old(self)@ + u16_bytes(value),
    {
        self.bytes.push((value % 0x100) as u8);
        self.bytes.push((value / 0x100) as u8);
        assert(self@ =~= old(self)@ + u16_bytes(value));
    }

    /// Appends the four little-endian bytes of `value`.
    pub fn write_u32(&mut self, value: u32)
        ensures
            final(self)@ == old(self)@ + u32_bytes(value),
    {
        self.bytes.push((value % 0x100) as u8);
        self.bytes.push(((value / 0x100) % 0x100) as u8);
        self.bytes.push(((value / 0x1_0000) % 0x100) as u8);
        self.bytes.push((value / 0x100_0000) as u8);
        assert(self@ =~= old(self)@ + u32_bytes(value));
    }

    /// Appends one byte for a boolean: 1 for true, 0 for false.
    pub fn write_bool(&mut self, value: bool)
        ensures
            final(self)@ == old(self)@ + bool_bytes(value),
    {
        let byte: u8 = match value {
            true => 1,
            false => 0,
        };
        self.write_u8(byte);
        assert(self@ =~= old(self)@ + bool_bytes(value));
    }

    /// Appends the eight little-endian bytes of a double, given by its bits.
    pub fn write_double(&mut self, value: u64)
        ensures
            final(self)@ == old(self)@ + u64_bytes(value),
    {
        self.write_u32((value % 0x1_0000_0000) as u32);
        self.write_u32((value / 0x1_0000_0000) as u32);
        assert(self@ =~= old(self)@ + u64_bytes(value));
    }

    /// Appends a full version, given in its packed form: eight bytes.
    pub fn write_version(&mut self, version: u64)
        ensures
            final(self)@ == old(self)@ + version_bytes(Version::unpacked(version)),
    {
        let main_version = (version / 0x1_0000_0000_0000) as u16;
        self.write_u16(main_version);
        let major_version = ((version / 0x1_0000_0000) % 0x1_0000) as u16;
        self.write_u16(major_version);
        let minor_version = ((version / 0x1_0000) % 0x1_0000) as u16;
        self.write_u16(minor_version);
        let developer_version = (version % 0x1_0000) as u16;
        self.write_u16(developer_version);
        assert(self@ =~= old(self)@ + version_bytes(Version::unpacked(version)));
    }

    /// Appends a string as a property tree holds it. A length of 255 bytes
    /// or more is written in 32 bits, of which a longer one keeps the low 32.
    pub fn write_string(&mut self, value: String)
        ensures
            final(self)@ == old(self)@ + string_bytes(value@),
    {
        if value.as_str().is_empty() {
            self.write_bool(true);
            assert(self@ =~= old(self)@ + string_bytes(value@));
        } else {
            self.write_bool(false);
            let utf8 = value.as_str().as_bytes();
            let len = utf8.len();
            if len < 255 {
                self.write_u8(len as u8);
            } else {
                self.write_u8(255);
                let wide = len as u64;
                self.write_u32((wide % 0x1_0000_0000) as u32);
            }
            self.bytes.extend_from_slice(utf8);
            assert(self@ =~= old(self)@ + string_bytes(value@));
        }
    }
}

} // verus!
