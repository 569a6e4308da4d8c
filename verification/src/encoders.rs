//! How the built-in types encode themselves: numbers, booleans, characters,
//! tuples, optional values, slices, arrays and vectors.

use crate::endian::{signed_bytes, unsigned_bytes, Endian};
use crate::result::WriteError;
use crate::writer::{BinaryWriter, Encoded, Write};
use vstd::prelude::*;

verus! {

/// The encoding that always succeeds with the bytes `bytes`.
pub open spec fn emitted(bytes: Seq<u8>) -> Encoded {
    Encoded { bytes, ok: true }
}

/// One encoding after another: the second part is emitted only if the first
/// succeeded.
pub open spec fn followed_by(first: Encoded, second: Encoded) -> Encoded {
    if first.ok {
        Encoded { bytes: first.bytes + second.bytes, ok: second.ok }
    } else {
        first
    }
}

/// The encodings of the items of `items` one after the other, up to the
/// first failure.
pub open spec fn encode_seq<T: Write>(items: Seq<T>, big: bool) -> Encoded
    decreases items.len(),
{
    if items.len() == 0 {
        emitted(Seq::empty())
    } else {
        followed_by(encode_seq(items.drop_last(), big), items.last().encode(big))
    }
}

impl Write for u8 {
    open spec fn encode(&self, big: bool) -> Encoded {
        emitted(seq![*self])
    }

    fn write<E: Endian>(&self, writer: &mut BinaryWriter<E>) -> (r: Result<(), WriteError>) {
        writer.u8(*self)
    }
}

impl Write for i8 {
    open spec fn encode(&self, big: bool) -> Encoded {
        emitted(signed_bytes(*self as int, 1, big))
    }

    fn write<E: Endian>(&self, writer: &mut BinaryWriter<E>) -> (r: Result<(), WriteError>) {
        writer.i8(*self)
    }
}

impl Write for u16 {
    open spec fn encode(&self, big: bool) -> Encoded {
        emitted(unsigned_bytes(*self as nat, 2, big))
    }

    fn write<E: Endian>(&self, writer: &mut BinaryWriter<E>) -> (r: Result<(), WriteError>) {
        writer.u16(*self)
    }
}

impl Write for i16 {
    open spec fn encode(&self, big: bool) -> Encoded {
        emitted(signed_bytes(*self as int, 2, big))
    }

    fn write<E: Endian>(&self, writer: &mut BinaryWriter<E>) -> (r: Result<(), WriteError>) {
        writer.i16(*self)
    }
}

impl Write for u32 {
    open spec fn encode(&self, big: bool) -> Encoded {
        emitted(unsigned_bytes((*self as u32) as nat, 4, big))
    }

    fn write<E: Endian>(&self, writer: &mut BinaryWriter<E>) -> (r: Result<(), WriteError>) {
        writer.u32(*self)
    }
}

impl Write for i32 {
    open spec fn encode(&self, big: bool) -> Encoded {
        emitted(signed_bytes(*self as int, 4, big))
    }

    fn write<E: Endian>(&self, writer: &mut BinaryWriter<E>) -> (r: Result<(), WriteError>) {
        writer.i32(*self)
    }
}

impl Write for u64 {
    open spec fn encode(&self, big: bool) -> Encoded {
        emitted(unsigned_bytes(*self as nat, 8, big))
    }

    fn write<E: Endian>(&self, writer: &mut BinaryWriter<E>) -> (r: Result<(), WriteError>) {
        writer.u64(*self)
    }
}

impl Write for i64 {
    open spec fn encode(&self, big: bool) -> Encoded {
        emitted(signed_bytes(*self as int, 8, big))
    }

    fn write<E: Endian>(&self, writer: &mut BinaryWriter<E>) -> (r: Result<(), WriteError>) {
        writer.i64(*self)
    }
}

/// A boolean encodes as one byte, `1` for true and `0` for false.
impl Write for bool {
    open spec fn encode(&self, big: bool) -> Encoded {
        emitted(
            seq![if *self {
                1u8
            } else {
                0u8
            }],
        )
    }

    fn write<E: Endian>(&self, writer: &mut BinaryWriter<E>) -> (r: Result<(), WriteError>) {
        let value = if *self {
            1u8
        } else {
            0u8
        };
        writer.u8(value)
    }
}

/// A character encodes as its code point, a 32-bit number.
impl Write for char {
    open spec fn encode(&self, big: bool) -> Encoded {
        emitted(unsigned_bytes((*self as u32) as nat, 4, big))
    }

    fn write<E: Endian>(&self, writer: &mut BinaryWriter<E>) -> (r: Result<(), WriteError>) {
        writer.u32(*self as u32)
    }
}

/// An optional value encodes as the value it holds, and as nothing when it
/// holds none: no flag is written.
impl<T: Write> Write for Option<T> {
    open spec fn encode(&self, big: bool) -> Encoded {
        match *self {
            Some(value) => value.encode(big),
            None => emitted(Seq::empty()),
        }
    }

    fn write<E: Endian>(&self, writer: &mut BinaryWriter<E>) -> (r: Result<(), WriteError>) {
        match self {
            Some(value) => value.write(writer),
            None => {
                Ok(())
            },
        }
    }
}

/// Writes the items of `items` one after the other, up to the first failure.
fn write_items<T: Write, E: Endian>(items: &[T], writer: &mut BinaryWriter<E>) -> (r: Result<
    (),
    WriteError,
>)
    ensures
        final(writer)@ == old(writer)@ + encode_seq(items@, E::big()).bytes,
        r is Ok <==> encode_seq(items@, E::big()).ok,
{
    let mut i: usize = 0;
    assert(writer@ =~= old(writer)@ + encode_seq(items@.take(0), E::big()).bytes);
    while i < items.len()
        invariant
            i <= items@.len(),
            writer@ == old(writer)@ + encode_seq(items@.take(i as int), E::big()).bytes,
            encode_seq(items@.take(i as int), E::big()).ok,
        decreases items@.len() - i,
    {
        let r = items[i].write(writer);
        proof {
            assert(items@.take(i + 1).drop_last() =~= items@.take(i as int));
            assert(writer@ =~= old(writer)@ + encode_seq(items@.take(i + 1), E::big()).bytes);
        }
        match r {
            Ok(()) => {},
            Err(e) => {
                proof {
                    lemma_encode_seq_stops(items@, E::big(), i + 1);
                }
                return Err(e);
            },
        }
        i = i + 1;
    }
    assert(items@.take(i as int) =~= items@);
    Ok(())
}

/// Once a run of encodings has failed, further items emit nothing.
pub proof fn lemma_encode_seq_stops<T: Write>(items: Seq<T>, big: bool, j: int)
    requires
        0 <= j <= items.len(),
        !encode_seq(items.take(j), big).ok,
    ensures
        encode_seq(items, big) == encode_seq(items.take(j), big),
    decreases items.len(),
{
    if j == items.len() {
        assert(items.take(j) =~= items);
    } else {
        assert(items.drop_last().take(j) =~= items.take(j));
        lemma_encode_seq_stops(items.drop_last(), big, j);
    }
}

/// A slice encodes as its items one after the other, with no length field.
impl<T: Write> Write for &[T] {
    open spec fn encode(&self, big: bool) -> Encoded {
        encode_seq(self@, big)
    }

    fn write<E: Endian>(&self, writer: &mut BinaryWriter<E>) -> (r: Result<(), WriteError>) {
        write_items::<T, E>(*self, writer)
    }
}

/// An array of `N` items encodes as exactly `N` items one after the other.
impl<T: Write, const N: usize> Write for [T; N] {
    open spec fn encode(&self, big: bool) -> Encoded {
        encode_seq(self@, big)
    }

    fn write<E: Endian>(&self, writer: &mut BinaryWriter<E>) -> (r: Result<(), WriteError>) {
        write_items::<T, E>(self.as_slice(), writer)
    }
}

/// A vector encodes as its items one after the other, with no length field.
impl<T: Write> Write for Vec<T> {
    open spec fn encode(&self, big: bool) -> Encoded {
        encode_seq(self@, big)
    }

    fn write<E: Endian>(&self, writer: &mut BinaryWriter<E>) -> (r: Result<(), WriteError>) {
        write_items::<T, E>(self.as_slice(), writer)
    }
}

impl<T1: Write, T2: Write> Write for (T1, T2) {
    open spec fn encode(&self, big: bool) -> Encoded {
        followed_by(self.0.encode(big), self.1.encode(big))
    }

    fn write<E: Endian>(&self, writer: &mut BinaryWriter<E>) -> (r: Result<(), WriteError>) {
        match self.0.write(writer) {
            Ok(()) => {},
            Err(e) => {
                return Err(e);
            },
        }
        assert(writer@ =~= old(writer)@ + self.0.encode(E::big()).bytes);
        let r = self.1.write(writer);
        assert(writer@ =~= old(writer)@ + self.encode(E::big()).bytes);
        r
    }
}

impl<T1: Write, T2: Write, T3: Write> Write for (T1, T2, T3) {
    open spec fn encode(&self, big: bool) -> Encoded {
        followed_by(followed_by(self.0.encode(big), self.1.encode(big)), self.2.encode(big))
    }

    fn write<E: Endian>(&self, writer: &mut BinaryWriter<E>) -> (r: Result<(), WriteError>) {
        match self.0.write(writer) {
            Ok(()) => {},
            Err(e) => {
                return Err(e);
            },
        }
        assert(writer@ =~= old(writer)@ + self.0.encode(E::big()).bytes);
        match self.1.write(writer) {
            Ok(()) => {},
            Err(e) => {
                return Err(e);
            },
        }
        assert(writer@ =~= old(writer)@ + followed_by(self.0.encode(E::big()), self.1.encode(E::big())).bytes);
        let r = self.2.write(writer);
        assert(writer@ =~= old(writer)@ + self.encode(E::big()).bytes);
        r
    }
}

impl<T1: Write, T2: Write, T3: Write, T4: Write> Write for (T1, T2, T3, T4) {
    open spec fn encode(&self, big: bool) -> Encoded {
        followed_by(followed_by(followed_by(self.0.encode(big), self.1.encode(big)), self.2.encode(big)), self.3.encode(big))
    }

    fn write<E: Endian>(&self, writer: &mut BinaryWriter<E>) -> (r: Result<(), WriteError>) {
        match self.0.write(writer) {
            Ok(()) => {},
            Err(e) => {
                return Err(e);
            },
        }
        assert(writer@ =~= old(writer)@ + self.0.encode(E::big()).bytes);
        match self.1.write(writer) {
            Ok(()) => {},
            Err(e) => {
                return Err(e);
            },
        }
        assert(writer@ =~= old(writer)@ + followed_by(self.0.encode(E::big()), self.1.encode(E::big())).bytes);
        match self.2.write(writer) {
            Ok(()) => {},
            Err(e) => {
                return Err(e);
            },
        }
        assert(writer@ =~= old(writer)@ + followed_by(followed_by(self.0.encode(E::big()), self.1.encode(E::big())), self.2.encode(E::big())).bytes);
        let r = self.3.write(writer);
        assert(writer@ =~= old(writer)@ + self.encode(E::big()).bytes);
        r
    }
}

impl<T1: Write, T2: Write, T3: Write, T4: Write, T5: Write> Write for (T1, T2, T3, T4, T5) {
    open spec fn encode(&self, big: bool) -> Encoded {
        followed_by(followed_by(followed_by(followed_by(self.0.encode(big), self.1.encode(big)), self.2.encode(big)), self.3.encode(big)), self.4.encode(big))
    }

    fn write<E: Endian>(&self, writer: &mut BinaryWriter<E>) -> (r: Result<(), WriteError>) {
        match self.0.write(writer) {
            Ok(()) => {},
            Err(e) => {
                return Err(e);
            },
        }
        assert(writer@ =~= old(writer)@ + self.0.encode(E::big()).bytes);
        match self.1.write(writer) {
            Ok(()) => {},
            Err(e) => {
                return Err(e);
            },
        }
        assert(writer@ =~= old(writer)@ + followed_by(self.0.encode(E::big()), self.1.encode(E::big())).bytes);
        match self.2.write(writer) {
            Ok(()) => {},
            Err(e) => {
                return Err(e);
            },
        }
        assert(writer@ =~= old(writer)@ + followed_by(followed_by(self.0.encode(E::big()), self.1.encode(E::big())), self.2.encode(E::big())).bytes);
        match self.3.write(writer) {
            Ok(()) => {},
            Err(e) => {
                return Err(e);
            },
        }
        assert(writer@ =~= old(writer)@ + followed_by(followed_by(followed_by(self.0.encode(E::big()), self.1.encode(E::big())), self.2.encode(E::big())), self.3.encode(E::big())).bytes);
        let r = self.4.write(writer);
        assert(writer@ =~= old(writer)@ + self.encode(E::big()).bytes);
        r
    }
}

impl<T1: Write, T2: Write, T3: Write, T4: Write, T5: Write, T6: Write> Write for (T1, T2, T3, T4, T5, T6) {
    open spec fn encode(&self, big: bool) -> Encoded {
        followed_by(followed_by(followed_by(followed_by(followed_by(self.0.encode(big), self.1.encode(big)), self.2.encode(big)), self.3.encode(big)), self.4.encode(big)), self.5.encode(big))
    }

    fn write<E: Endian>(&self, writer: &mut BinaryWriter<E>) -> (r: Result<(), WriteError>) {
        match self.0.write(writer) {
            Ok(()) => {},
            Err(e) => {
                return Err(e);
            },
        }
        assert(writer@ =~= old(writer)@ + self.0.encode(E::big()).bytes);
        match self.1.write(writer) {
            Ok(()) => {},
            Err(e) => {
                return Err(e);
            },
        }
        assert(writer@ =~= old(writer)@ + followed_by(self.0.encode(E::big()), self.1.encode(E::big())).bytes);
        match self.2.write(writer) {
            Ok(()) => {},
            Err(e) => {
                return Err(e);
            },
        }
        assert(writer@ =~= old(writer)@ + followed_by(followed_by(self.0.encode(E::big()), self.1.encode(E::big())), self.2.encode(E::big())).bytes);
        match self.3.write(writer) {
            Ok(()) => {},
            Err(e) => {
                return Err(e);
            },
        }
        assert(writer@ =~= old(writer)@ + followed_by(followed_by(followed_by(self.0.encode(E::big()), self.1.encode(E::big())), self.2.encode(E::big())), self.3.encode(E::big())).bytes);
        match self.4.write(writer) {
            Ok(()) => {},
            Err(e) => {
                return Err(e);
            },
        }
        assert(writer@ =~= old(writer)@ + followed_by(followed_by(followed_by(followed_by(self.0.encode(E::big()), self.1.encode(E::big())), self.2.encode(E::big())), self.3.encode(E::big())), self.4.encode(E::big())).bytes);
        let r = self.5.write(writer);
        assert(writer@ =~= old(writer)@ + self.encode(E::big()).bytes);
        r
    }
}

} // verus!
