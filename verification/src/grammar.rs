//! What each read takes from the front of a byte sequence: the value it
//! yields and the bytes that remain, or the fault it stops on.

use vstd::prelude::*;
use vstd::utf8::{decode_utf8, valid_utf8};
use crate::error::Fault;
use crate::layout::{u16_of, u32_of, u64_of};
use crate::version::{Version, Version48};

verus! {

/// The outcome of one read: the value and the bytes left, or the fault.
pub type Parsed<T> = Result<(T, Seq<u8>), Fault>;

/// `tail` is what is left of `s` after some bytes were taken from its front.
pub open spec fn is_tail_of(tail: Seq<u8>, s: Seq<u8>) -> bool {
    tail.len() <= s.len() && tail == s.skip(s.len() - tail.len())
}

/// A tail of a tail is a tail.
pub broadcast proof fn lemma_tail_of_tail(a: Seq<u8>, b: Seq<u8>, c: Seq<u8>)
    requires
        #[trigger] is_tail_of(a, b),
        #[trigger] is_tail_of(b, c),
    ensures
        is_tail_of(a, c),
{
    assert(a =~= c.skip(c.len() - a.len()));
}

/// What is left after skipping is a tail.
pub broadcast proof fn lemma_skip_is_tail(s: Seq<u8>, n: int)
    requires
        0 <= n <= s.len(),
    ensures
        is_tail_of(#[trigger] s.skip(n), s),
{
    assert(s.skip(n) =~= s.skip(s.len() - s.skip(n).len()));
}

/// Every sequence is a tail of itself.
pub broadcast proof fn lemma_tail_of_self(s: Seq<u8>)
    ensures
        #[trigger] is_tail_of(s, s),
{
    assert(s =~= s.skip(0));
}

pub broadcast group group_tail {
    lemma_tail_of_tail,
    lemma_skip_is_tail,
    lemma_tail_of_self,
}

/// The next byte, which stays where it is.
pub open spec fn peek_u8(s: Seq<u8>) -> Result<u8, Fault> {
    if s.len() == 0 {
        Err(Fault::Eof)
    } else {
        Ok(s[0])
    }
}

/// One byte.
pub open spec fn take_u8(s: Seq<u8>) -> Parsed<u8> {
    if s.len() == 0 {
        Err(Fault::Eof)
    } else {
        Ok((s[0], s.skip(1)))
    }
}

/// Two bytes as a little-endian number.
pub open spec fn take_u16(s: Seq<u8>) -> Parsed<u16> {
    if s.len() < 2 {
        Err(Fault::Slicing)
    } else {
        Ok((u16_of(s[0], s[1]), s.skip(2)))
    }
}

/// Four bytes as a little-endian number.
pub open spec fn take_u32(s: Seq<u8>) -> Parsed<u32> {
    if s.len() < 4 {
        Err(Fault::Slicing)
    } else {
        Ok((u32_of(s[0], s[1], s[2], s[3]), s.skip(4)))
    }
}

/// Eight bytes as a little-endian number: the bits of a double.
pub open spec fn take_double(s: Seq<u8>) -> Parsed<u64> {
    if s.len() < 8 {
        Err(Fault::Slicing)
    } else {
        Ok((u64_of(s), s.skip(8)))
    }
}

/// A 16-bit number in the space-saving form: one byte below 255 is the
/// number; the byte 255 announces the two bytes that hold it.
pub open spec fn take_u16_optim(s: Seq<u8>) -> Parsed<u16> {
    match take_u8(s) {
        Err(f) => Err(f),
        Ok((b, rest)) => if b != 255 {
            Ok((b as u16, rest))
        } else {
            take_u16(rest)
        },
    }
}

/// A 32-bit number in the space-saving form: one byte below 255 is the
/// number; the byte 255 announces the four bytes that hold it.
pub open spec fn take_u32_optim(s: Seq<u8>) -> Parsed<u32> {
    match take_u8(s) {
        Err(f) => Err(f),
        Ok((b, rest)) => if b != 255 {
            Ok((b as u32, rest))
        } else {
            take_u32(rest)
        },
    }
}

/// One byte as a boolean: exactly 1 is true, anything else false.
pub open spec fn take_bool(s: Seq<u8>) -> Parsed<bool> {
    match take_u8(s) {
        Err(f) => Err(f),
        Ok((b, rest)) => Ok((b == 1, rest)),
    }
}

/// A length in the space-saving form and that many bytes of UTF-8.
#[verifier::opaque]
pub open spec fn take_text(s: Seq<u8>) -> Parsed<Seq<char>> {
    match take_u32_optim(s) {
        Err(f) => Err(f),
        Ok((len, rest)) => if rest.len() < len {
            Err(Fault::Slicing)
        } else if !valid_utf8(rest.take(len as int)) {
            Err(Fault::Utf8)
        } else {
            Ok((decode_utf8(rest.take(len as int)), rest.skip(len as int)))
        },
    }
}

/// A string. With `has_empty_indicator`, as a property tree holds it: a
/// boolean first, which, if true, says that the string is empty and nothing
/// follows. Without, as a save header holds it: length and bytes at once.
pub open spec fn take_string(s: Seq<u8>, has_empty_indicator: bool) -> Parsed<Seq<char>> {
    if has_empty_indicator {
        match take_bool(s) {
            Err(f) => Err(f),
            Ok((empty, rest)) => if empty {
                Ok((Seq::empty(), rest))
            } else {
                take_text(rest)
            },
        }
    } else {
        take_text(s)
    }
}

/// A full version: four 16-bit numbers, `main` first.
pub open spec fn take_version(s: Seq<u8>) -> Parsed<Version> {
    match take_u16(s) {
        Err(f) => Err(f),
        Ok((main, r1)) => match take_u16(r1) {
            Err(f) => Err(f),
            Ok((major, r2)) => match take_u16(r2) {
                Err(f) => Err(f),
                Ok((minor, r3)) => match take_u16(r3) {
                    Err(f) => Err(f),
                    Ok((developer, r4)) => Ok((Version { main, major, minor, developer }, r4)),
                },
            },
        },
    }
}

/// A compact version: three numbers in the space-saving form, `main` first.
pub open spec fn take_version48(s: Seq<u8>) -> Parsed<Version48> {
    match take_u16_optim(s) {
        Err(f) => Err(f),
        Ok((main, r1)) => match take_u16_optim(r1) {
            Err(f) => Err(f),
            Ok((major, r2)) => match take_u16_optim(r2) {
                Err(f) => Err(f),
                Ok((minor, r3)) => Ok((Version48 { main, major, minor }, r3)),
            },
        },
    }
}

/// Puts `head` in front of the items that a read yielded.
pub open spec fn prepend<T>(head: Seq<T>, p: Parsed<Seq<T>>) -> Parsed<Seq<T>> {
    match p {
        Err(f) => Err(f),
        Ok((items, rest)) => Ok((head + items, rest)),
    }
}

/// Items put in front one by one are put in front together.
pub proof fn lemma_prepend_push<T>(head: Seq<T>, x: T, p: Parsed<Seq<T>>)
    ensures
        prepend(head, prepend(seq![x], p)) == prepend(head.push(x), p),
{
    if p is Ok {
        assert(head + (seq![x] + p->Ok_0.0) =~= head.push(x) + p->Ok_0.0);
    }
}

/// Nothing put in front changes nothing.
pub proof fn lemma_prepend_empty<T>(p: Parsed<Seq<T>>)
    ensures
        prepend(Seq::empty(), p) == p,
{
    if p is Ok {
        assert(Seq::<T>::empty() + p->Ok_0.0 =~= p->Ok_0.0);
    }
}

/// What a string leaves is shorter than what it was read from.
pub proof fn lemma_string_takes_bytes(s: Seq<u8>, has_empty_indicator: bool)
    ensures
        take_string(s, has_empty_indicator) matches Ok((_, rest)) ==> rest.len() < s.len(),
{
    reveal(take_text);
}

} // verus!
