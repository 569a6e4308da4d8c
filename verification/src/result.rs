//! Error values of decoding and encoding, and the result types built on them.

use crate::text::{decimal_text, hex_text, push_decimal, push_hex};
use vstd::prelude::*;

verus! {

/// The transport's own error type, carried through unchanged.
#[verifier::external_type_specification]
#[verifier::external_body]
pub struct ExIoError(std::io::Error);

/// Why a decode failed.
#[derive(Debug)]
pub enum ReadError {
    /// The byte supply itself failed.
    IoError(std::io::Error),
    /// The budget does not allow the transfer: `expected` bytes were asked
    /// for and only `actual` remain under the ceiling.
    NotEnoughBytes { expected: usize, actual: usize },
    /// A caller broke the contract of an operation.
    InvalidArgument,
    /// The decoded bytes violate an expectation; the text describes it.
    InvalidDataFormat(String),
}

/// Why an encode failed.
#[derive(Debug)]
pub enum WriteError {
    /// The byte sink failed, or a value does not fit the slot given for it.
    IoError(std::io::Error),
}

pub type ReadResult<T> = Result<T, ReadError>;

pub type WriteResult<T> = Result<T, WriteError>;

/// The kind of a decode failure, with its numbers and without its text.
pub enum Fault {
    Io,
    NotEnoughBytes { expected: nat, remaining: nat },
    InvalidArgument,
    InvalidDataFormat,
}

impl View for ReadError {
    type V = Fault;

    open spec fn view(&self) -> Fault {
        match *self {
            ReadError::IoError(_) => Fault::Io,
            ReadError::NotEnoughBytes { expected, actual } => Fault::NotEnoughBytes {
                expected: expected as nat,
                remaining: actual as nat,
            },
            ReadError::InvalidArgument => Fault::InvalidArgument,
            ReadError::InvalidDataFormat(_) => Fault::InvalidDataFormat,
        }
    }
}

/// Whether `r` is a failure that the text `text` describes.
pub open spec fn fails_saying<T>(r: Result<T, ReadError>, text: Seq<char>) -> bool {
    r matches Err(e) && e.describes(text)
}

/// Whether `r` is a failure of the kind `fault`.
pub open spec fn fails_with<T>(r: Result<T, ReadError>, fault: Fault) -> bool {
    r matches Err(e) && e@ == fault
}

impl ReadError {
    /// Whether this failure carries the description `text`.
    pub open spec fn describes(&self, text: Seq<char>) -> bool {
        *self matches ReadError::InvalidDataFormat(t) && t@ == text
    }

    /// The failure of a transfer of `expected` bytes where `actual` remain.
    pub fn not_enough_bytes(expected: usize, actual: usize) -> (e: Self)
        ensures
            e == (ReadError::NotEnoughBytes { expected, actual }),
    {
        ReadError::NotEnoughBytes { expected, actual }
    }

    /// The failure of an expectation that `msg` describes.
    pub fn invalid_data_format(msg: &str) -> (e: Self)
        ensures
            e@ == Fault::InvalidDataFormat,
            e.describes(msg@),
    {
        ReadError::InvalidDataFormat(msg.to_owned())
    }

    /// The failure of the byte supply with the transport's error `err`.
    pub fn io_error(err: std::io::Error) -> (e: Self)
        ensures
            e == ReadError::IoError(err),
    {
        ReadError::IoError(err)
    }
}

impl WriteError {
    /// The failure of the byte sink with the transport's error `err`.
    pub fn io_error(err: std::io::Error) -> (e: Self)
        ensures
            e == WriteError::IoError(err),
    {
        WriteError::IoError(err)
    }
}

/// `std::io::Error::from` on `ErrorKind::UnexpectedEof`: the error with which
/// a supply answers a request for more bytes than it has left. Nothing is
/// claimed of the value.
#[verifier::external_body]
pub(crate) fn unexpected_eof() -> std::io::Error {
    std::io::Error::from(std::io::ErrorKind::UnexpectedEof)
}

/// `std::io::Error::new` with `ErrorKind::InvalidInput` and the text `msg`.
/// Nothing is claimed of the value.
#[verifier::external_body]
pub(crate) fn invalid_input(msg: &str) -> std::io::Error {
    std::io::Error::new(std::io::ErrorKind::InvalidInput, msg)
}

/// `format!` with `{:?}`: the `Debug` form of a value. Nothing is claimed
/// of the text.
#[verifier::external_body]
fn debug_form<T: std::fmt::Debug>(value: &T) -> String {
    format!("{:?}", value)
}

/// The description of a failed check of reserved bytes.
pub open spec fn reserved_text(expected: u8, found: u8) -> Seq<char> {
    "Expected reserved byte to be 0x"@ + hex_text(expected) + ", but got 0x"@ + hex_text(found)
}

/// The description of the failure of a number to be a Unicode scalar value.
pub open spec fn invalid_char_text(value: u32) -> Seq<char> {
    "Invalid char value: "@ + decimal_text(value as nat)
}

/// The failure of a check of reserved bytes that found `found` where
/// `expected` should stand.
pub(crate) fn reserved_mismatch(expected: u8, found: u8) -> (e: ReadError)
    ensures
        e@ == Fault::InvalidDataFormat,
        e.describes(reserved_text(expected, found)),
{
    let mut text = String::from_str("Expected reserved byte to be 0x");
    push_hex(&mut text, expected);
    text.append(", but got 0x");
    push_hex(&mut text, found);
    ReadError::InvalidDataFormat(text)
}

/// The failure of the number `value` to be a Unicode scalar value.
pub(crate) fn invalid_char(value: u32) -> (e: ReadError)
    ensures
        e@ == Fault::InvalidDataFormat,
        e.describes(invalid_char_text(value)),
{
    let mut text = String::from_str("Invalid char value: ");
    push_decimal(&mut text, value);
    ReadError::InvalidDataFormat(text)
}

/// The failure of a value to be `value`, which its description names by its `Debug` form.
pub(crate) fn expected_value<T: std::fmt::Debug>(value: &T) -> (e: ReadError)
    ensures
        e@ == Fault::InvalidDataFormat,
        e.names_expectation(),
{
    let form = debug_form(value);
    let mut text = String::from_str("Expected value to be ");
    text.append(form.as_str());
    text.append(", but got something else");
    let e = ReadError::InvalidDataFormat(text);
    assert(e.describes(expected_value_text(form@)));
    e
}

/// The description of the failure of a value to be the one expected, where
/// `form` is the `Debug` form of the value expected.
pub open spec fn expected_value_text(form: Seq<char>) -> Seq<char> {
    "Expected value to be "@ + form + ", but got something else"@
}

impl ReadError {
    /// Whether this failure says that a value was expected and not found,
    /// and names the value by some form of it.
    pub open spec fn names_expectation(&self) -> bool {
        exists|form: Seq<char>| #[trigger] self.describes(expected_value_text(form))
    }
}

} // verus!
