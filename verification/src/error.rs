//! The closed set of failures a decode or encode step can report.

use vstd::prelude::*;
use vstd::string::StringExecFns;

verus! {

/// `std::str::Utf8Error`, which is carried through and never looked into.
#[verifier::external_type_specification]
#[verifier::external_body]
pub struct ExUtf8Error(std::str::Utf8Error);

/// What went wrong while reading or writing a buffer.
#[derive(Debug, PartialEq)]
pub enum Error {
    /// A free-form failure raised by an internal data structure.
    Message(String),
    /// Fewer bytes remain than a fixed-width or length-prefixed read needs.
    ByteSlicingError,
    /// The cursor is at the end of the buffer.
    Eof,
    /// A tag byte names no known variant.
    OutOfRange,
    /// The bytes are readable but the structure they describe is not allowed.
    Syntax(String),
    /// Data follows a record that must end the buffer.
    TrailingBytes,
    /// String bytes are not well-formed UTF-8.
    Utf8(std::str::Utf8Error),
}

impl Clone for Error {
    /// An equal error.
    fn clone(&self) -> (r: Self)
        ensures
            r == *self,
    {
        match self {
            Error::Message(msg) => Error::Message(msg.clone()),
            Error::ByteSlicingError => Error::ByteSlicingError,
            Error::Eof => Error::Eof,
            Error::OutOfRange => Error::OutOfRange,
            Error::Syntax(msg) => Error::Syntax(msg.clone()),
            Error::TrailingBytes => Error::TrailingBytes,
            Error::Utf8(utf8_error) => Error::Utf8(*utf8_error),
        }
    }
}

/// The mathematical counterpart of [`Error`]: the kind of failure and, where
/// one exists, its message as a sequence of characters. The detail that the
/// standard library attaches to a UTF-8 failure is left out.
pub enum Fault {
    Message(Seq<char>),
    Slicing,
    Eof,
    OutOfRange,
    Syntax(Seq<char>),
    TrailingBytes,
    Utf8,
}

impl View for Error {
    type V = Fault;

    open spec fn view(&self) -> Fault {
        match self {
            Error::Message(m) => Fault::Message(m@),
            Error::ByteSlicingError => Fault::Slicing,
            Error::Eof => Fault::Eof,
            Error::OutOfRange => Fault::OutOfRange,
            Error::Syntax(m) => Fault::Syntax(m@),
            Error::TrailingBytes => Fault::TrailingBytes,
            Error::Utf8(_) => Fault::Utf8,
        }
    }
}

impl Fault {
    /// A fault that only says the buffer ended too early.
    pub open spec fn is_shortage(self) -> bool {
        self is Eof || self is Slicing
    }

    /// The text that describes the fault, up to the detail that a UTF-8
    /// failure puts between its brackets.
    pub open spec fn text(self, detail: Seq<char>) -> Seq<char> {
        match self {
            Fault::Message(msg) => "factorio-file-parser::Error::Message("@ + msg + ")"@,
            Fault::Slicing => "factorio-file-parser::Error::ByteSlicingError"@,
            Fault::Eof => "factorio-file-parser::Error::Eof"@,
            Fault::OutOfRange => "factorio-file-parser::Error::OutOfRange"@,
            Fault::Syntax(msg) => "factorio-file-parser::Error::Syntax("@ + msg + ")"@,
            Fault::TrailingBytes => "factorio-file-parser::Error::TrailingBytes"@,
            Fault::Utf8 => "factorio-file-parser::Error::Utf8("@ + detail + ")"@,
        }
    }
}

/// Calls `to_string` on a `std::str::Utf8Error`, which gives the text of
/// its `Display`. Nothing is claimed of that text.
#[verifier::external_body]
fn utf8_error_text(e: &std::str::Utf8Error) -> (text: String) {
    e.to_string()
}

impl Error {
    /// The error as a line of text: its name and, in brackets, its message.
    /// For a UTF-8 failure the brackets hold what the standard library says
    /// of it.
    pub fn to_string(&self) -> (s: String)
        ensures
            self is Utf8 ==> exists|detail: Seq<char>| s@ == self@.text(detail),
            !(self is Utf8) ==> s@ == self@.text(Seq::empty()),
    {
        match self {
            Error::Message(msg) => String::from_str("factorio-file-parser::Error::Message(").concat(
                msg.as_str(),
            ).concat(")"),
            Error::ByteSlicingError => String::from_str(
                "factorio-file-parser::Error::ByteSlicingError",
            ),
            Error::Eof => String::from_str("factorio-file-parser::Error::Eof"),
            Error::OutOfRange => String::from_str("factorio-file-parser::Error::OutOfRange"),
            Error::Syntax(msg) => String::from_str("factorio-file-parser::Error::Syntax(").concat(
                msg.as_str(),
            ).concat(")"),
            Error::TrailingBytes => String::from_str("factorio-file-parser::Error::TrailingBytes"),
            Error::Utf8(utf8_error) => {
                let detail = utf8_error_text(utf8_error);
                let s = String::from_str("factorio-file-parser::Error::Utf8(").concat(
                    detail.as_str(),
                ).concat(")");
                assert(s@ == self@.text(detail@));
                s
            },
        }
    }
}

} // verus!
