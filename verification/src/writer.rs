//! The encoding cursor: appends the bytes of typed values to an in-memory
//! byte sink, in a chosen byte order.

use crate::endian::{
    le_bytes, signed_bytes, unsigned_bytes, unsigned_of_i8, BigEndian, Endian, LittleEndian,
};
use crate::budget::alignment_pad;
use crate::result::WriteError;
use std::marker::PhantomData;
use vstd::prelude::*;

verus! {

/// What encoding a value yields: the bytes that reach the sink, and whether
/// the encoding succeeded. A failed encoding may have emitted the bytes of
/// the parts that came before the failure.
pub struct Encoded {
    pub bytes: Seq<u8>,
    pub ok: bool,
}

/// `len` bytes of the value `value`.
pub open spec fn filled(value: u8, len: nat) -> Seq<u8> {
    Seq::new(len, |i: int| value)
}

/// An encoding cursor over an in-memory byte sink, writing multi-byte
/// numbers in the byte order `E`. Its view is everything the sink holds.
pub struct BinaryWriter<E: Endian> {
    writer: Vec<u8>,
    _endian: PhantomData<E>,
}

impl<E: Endian> View for BinaryWriter<E> {
    type V = Seq<u8>;

    closed spec fn view(&self) -> Seq<u8> {
        self.writer@
    }
}

impl BinaryWriter<LittleEndian> {
    /// A little-endian cursor that appends to `writer`.
    pub fn new_le(writer: Vec<u8>) -> (w: Self)
        ensures
            w@ == writer@,
    {
        BinaryWriter { writer, _endian: PhantomData }
    }
}

impl BinaryWriter<BigEndian> {
    /// A big-endian cursor that appends to `writer`.
    pub fn new_be(writer: Vec<u8>) -> (w: Self)
        ensures
            w@ == writer@,
    {
        BinaryWriter { writer, _endian: PhantomData }
    }
}

impl<E: Endian> BinaryWriter<E> {
    /// A cursor that appends to `writer`.
    pub fn new(writer: Vec<u8>) -> (w: Self)
        ensures
            w@ == writer@,
    {
        BinaryWriter { writer, _endian: PhantomData }
    }

    /// Gives the sink back, with everything that was written to it.
    pub fn into_inner(self) -> (sink: Vec<u8>)
        ensures
            sink@ == self@,
    {
        self.writer
    }

    /// Writes `bytes` verbatim, in one transfer.
    pub fn bytes(&mut self, bytes: &[u8]) -> (r: Result<(), WriteError>)
        ensures
            r is Ok,
            final(self)@ == old(self)@ + bytes@,
    {
        let mut i: usize = 0;
        while i < bytes.len()
            invariant
                i <= bytes@.len(),
                self@ == old(self)@ + bytes@.take(i as int),
            decreases bytes@.len() - i,
        {
            self.writer.push(bytes[i]);
            assert(self@ =~= old(self)@ + bytes@.take(i + 1));
            i = i + 1;
        }
        assert(bytes@.take(i as int) =~= bytes@);
        Ok(())
    }

    /// Writes the `N` bytes of `value` verbatim.
    fn write_value<const N: usize>(&mut self, value: &[u8; N]) -> (r: Result<(), WriteError>)
        ensures
            r is Ok,
            final(self)@ == old(self)@ + value@,
    {
        self.bytes(value.as_slice())
    }

    /// Writes an unsigned 8-bit integer.
    pub fn u8(&mut self, value: u8) -> (r: Result<(), WriteError>)
        ensures
            r is Ok,
            final(self)@ == old(self)@ + seq![value],
    {
        let b = [value];
        self.write_value(&b)
    }

    /// Writes a signed 8-bit integer.
    pub fn i8(&mut self, value: i8) -> (r: Result<(), WriteError>)
        ensures
            r is Ok,
            final(self)@ == old(self)@ + signed_bytes(value as int, 1, E::big()),
    {
        let b = [unsigned_of_i8(value)];
        proof {
            reveal_with_fuel(le_bytes, 2);
            assert(le_bytes(b@[0] as nat, 1) =~= b@);
            assert(b@.reverse() =~= b@);
        }
        self.write_value(&b)
    }

    /// Writes an unsigned 16-bit integer in this cursor's byte order.
    pub fn u16(&mut self, value: u16) -> (r: Result<(), WriteError>)
        ensures
            r is Ok,
            final(self)@ == old(self)@ + unsigned_bytes(value as nat, 2, E::big()),
    {
        self.write_value(&E::u16_to_bytes(value))
    }

    /// Writes a signed 16-bit integer in this cursor's byte order.
    pub fn i16(&mut self, value: i16) -> (r: Result<(), WriteError>)
        ensures
            r is Ok,
            final(self)@ == old(self)@ + signed_bytes(value as int, 2, E::big()),
    {
        self.write_value(&E::i16_to_bytes(value))
    }

    /// Writes an unsigned 32-bit integer in this cursor's byte order.
    pub fn u32(&mut self, value: u32) -> (r: Result<(), WriteError>)
        ensures
            r is Ok,
            final(self)@ == old(self)@ + unsigned_bytes(value as nat, 4, E::big()),
    {
        self.write_value(&E::u32_to_bytes(value))
    }

    /// Writes a signed 32-bit integer in this cursor's byte order.
    pub fn i32(&mut self, value: i32) -> (r: Result<(), WriteError>)
        ensures
            r is Ok,
            final(self)@ == old(self)@ + signed_bytes(value as int, 4, E::big()),
    {
        self.write_value(&E::i32_to_bytes(value))
    }

    /// Writes an unsigned 64-bit integer in this cursor's byte order.
    pub fn u64(&mut self, value: u64) -> (r: Result<(), WriteError>)
        ensures
            r is Ok,
            final(self)@ == old(self)@ + unsigned_bytes(value as nat, 8, E::big()),
    {
        self.write_value(&E::u64_to_bytes(value))
    }

    /// Writes a signed 64-bit integer in this cursor's byte order.
    pub fn i64(&mut self, value: i64) -> (r: Result<(), WriteError>)
        ensures
            r is Ok,
            final(self)@ == old(self)@ + signed_bytes(value as int, 8, E::big()),
    {
        self.write_value(&E::i64_to_bytes(value))
    }

    /// Writes `len` bytes of the value `value`: padding, or a region that
    /// must hold a fixed byte.
    pub fn reserved(&mut self, value: u8, len: usize) -> (r: Result<(), WriteError>)
        ensures
            r is Ok,
            final(self)@ == old(self)@ + filled(value, len as nat),
    {
        let mut i: usize = 0;
        while i < len
            invariant
                i <= len,
                self@ == old(self)@ + filled(value, i as nat),
            decreases len - i,
        {
            self.writer.push(value);
            i = i + 1;
        }
        Ok(())
    }

    /// Writes the zero bytes that take the position `offset` to the next
    /// multiple of `alignment`; writes nothing when `offset` already is one.
    pub fn fill_aligned(&mut self, alignment: usize, offset: usize) -> (r: Result<(), WriteError>)
        requires
            alignment > 0,
        ensures
            r is Ok,
            final(self)@ == old(self)@ + filled(0, alignment_pad(offset as nat, alignment as nat)),
    {
        let remainder = offset % alignment;
        proof {
            if remainder != 0 {
                vstd::arithmetic::div_mod::lemma_small_mod(
                    (alignment - remainder) as nat,
                    alignment as nat,
                );
            } else {
                vstd::arithmetic::div_mod::lemma_mod_self_0(alignment as int);
            }
        }
        if remainder == 0 {
            return Ok(());
        }
        self.reserved(0x00, alignment - remainder)
    }

    /// Hands everything written so far to the sink. An in-memory sink holds
    /// it already.
    pub fn flush(&mut self) -> (r: Result<(), WriteError>)
        ensures
            r is Ok,
            final(self)@ == old(self)@,
    {
        Ok(())
    }
}

/// A type that encodes itself into a cursor.
///
/// `encode` says which bytes a value emits in a byte order and whether it
/// succeeds; `write` appends exactly those bytes.
pub trait Write {
    /// What encoding this value yields. Left open where a type states
    /// nothing.
    open spec fn encode(&self, big: bool) -> Encoded {
        arbitrary()
    }

    fn write<E: Endian>(&self, writer: &mut BinaryWriter<E>) -> (r: Result<(), WriteError>)
        ensures
            final(writer)@ == old(writer)@ + self.encode(E::big()).bytes,
            r is Ok <==> self.encode(E::big()).ok,
    ;
}

/// A type that encodes itself into a cursor with the help of an argument
/// that the caller supplies.
pub trait WriteWith<T> {
    /// What encoding this value yields. Left open where a type states
    /// nothing.
    open spec fn encode_with(&self, big: bool, arg: T) -> Encoded {
        arbitrary()
    }

    fn write_with<E: Endian>(&self, writer: &mut BinaryWriter<E>, value: T) -> (r: Result<
        (),
        WriteError,
    >)
        ensures
            final(writer)@ == old(writer)@ + self.encode_with(E::big(), value).bytes,
            r is Ok <==> self.encode_with(E::big(), value).ok,
    ;
}

impl<E: Endian> BinaryWriter<E> {
    /// Writes a value of any type that encodes itself.
    pub fn write<T: Write>(&mut self, value: &T) -> (r: Result<(), WriteError>)
        ensures
            final(self)@ == old(self)@ + value.encode(E::big()).bytes,
            r is Ok <==> value.encode(E::big()).ok,
    {
        value.write(self)
    }

    /// Writes a value of any type that encodes itself with an argument.
    pub fn write_with<T: WriteWith<U>, U>(&mut self, value: &T, with: U) -> (r: Result<
        (),
        WriteError,
    >)
        ensures
            final(self)@ == old(self)@ + value.encode_with(E::big(), with).bytes,
            r is Ok <==> value.encode_with(E::big(), with).ok,
    {
        value.write_with(self, with)
    }
}

impl BinaryWriter<LittleEndian> {
    /// Writes one value in big-endian order; the cursor's own order stays
    /// little-endian.
    pub fn write_as_be<T: Write>(&mut self, value: &T) -> (r: Result<(), WriteError>)
        ensures
            final(self)@ == old(self)@ + value.encode(true).bytes,
            r is Ok <==> value.encode(true).ok,
    {
        let mut sink: Vec<u8> = Vec::new();
        std::mem::swap(&mut self.writer, &mut sink);
        let mut child: BinaryWriter<BigEndian> = BinaryWriter { writer: sink, _endian: PhantomData };
        let result = value.write(&mut child);
        self.writer = child.writer;
        result
    }

    /// Writes one value with an argument in big-endian order.
    pub fn write_as_be_with<T: WriteWith<U>, U>(&mut self, value: &T, with: U) -> (r: Result<
        (),
        WriteError,
    >)
        ensures
            final(self)@ == old(self)@ + value.encode_with(true, with).bytes,
            r is Ok <==> value.encode_with(true, with).ok,
    {
        let mut sink: Vec<u8> = Vec::new();
        std::mem::swap(&mut self.writer, &mut sink);
        let mut child: BinaryWriter<BigEndian> = BinaryWriter { writer: sink, _endian: PhantomData };
        let result = value.write_with(&mut child, with);
        self.writer = child.writer;
        result
    }
}

impl BinaryWriter<BigEndian> {
    /// Writes one value in little-endian order; the cursor's own order stays
    /// big-endian.
    pub fn write_as_le<T: Write>(&mut self, value: &T) -> (r: Result<(), WriteError>)
        ensures
            final(self)@ == old(self)@ + value.encode(false).bytes,
            r is Ok <==> value.encode(false).ok,
    {
        let mut sink: Vec<u8> = Vec::new();
        std::mem::swap(&mut self.writer, &mut sink);
        let mut child: BinaryWriter<LittleEndian> = BinaryWriter {
            writer: sink,
            _endian: PhantomData,
        };
        let result = value.write(&mut child);
        self.writer = child.writer;
        result
    }

    /// Writes one value with an argument in little-endian order.
    pub fn write_as_le_with<T: WriteWith<U>, U>(&mut self, value: &T, with: U) -> (r: Result<
        (),
        WriteError,
    >)
        ensures
            final(self)@ == old(self)@ + value.encode_with(false, with).bytes,
            r is Ok <==> value.encode_with(false, with).ok,
    {
        let mut sink: Vec<u8> = Vec::new();
        std::mem::swap(&mut self.writer, &mut sink);
        let mut child: BinaryWriter<LittleEndian> = BinaryWriter {
            writer: sink,
            _endian: PhantomData,
        };
        let result = value.write_with(&mut child, with);
        self.writer = child.writer;
        result
    }
}

} // verus!
