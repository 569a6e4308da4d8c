//! How the built-in types decode themselves: numbers, booleans, characters,
//! tuples, optional values, arrays and vectors.

use crate::endian::{signed_value, unsigned_value, Endian};
use crate::reader::{values_of, BinaryReader, Cursor, Decoded, Model, Read, ReadWith};
use crate::result::{
    fails_saying, fails_with, invalid_char, invalid_char_text, Fault, ReadError,
};
use vstd::prelude::*;

verus! {

/// Whether `v` is a Unicode scalar value: a code point that is no surrogate.
pub open spec fn is_scalar_value(v: u32) -> bool {
    v <= 0xD7FF || 0xE000 <= v <= 0x10FFFF
}

/// `char::from_u32` gives the character with the code point `i` where `i` is
/// a Unicode scalar value, and nothing where it is not.
pub assume_specification[ char::from_u32 ](i: u32) -> (r: Option<char>)
    ensures
        r == (if is_scalar_value(i) {
            Some(i as char)
        } else {
            None
        }),
;

impl Model for u8 {
    type Value = u8;

    open spec fn value(&self) -> u8 {
        *self
    }
}

impl Model for i8 {
    type Value = i8;

    open spec fn value(&self) -> i8 {
        *self
    }
}

impl Model for u16 {
    type Value = u16;

    open spec fn value(&self) -> u16 {
        *self
    }
}

impl Model for i16 {
    type Value = i16;

    open spec fn value(&self) -> i16 {
        *self
    }
}

impl Model for u32 {
    type Value = u32;

    open spec fn value(&self) -> u32 {
        *self
    }
}

impl Model for i32 {
    type Value = i32;

    open spec fn value(&self) -> i32 {
        *self
    }
}

impl Model for u64 {
    type Value = u64;

    open spec fn value(&self) -> u64 {
        *self
    }
}

impl Model for i64 {
    type Value = i64;

    open spec fn value(&self) -> i64 {
        *self
    }
}

impl Model for bool {
    type Value = bool;

    open spec fn value(&self) -> bool {
        *self
    }
}

impl Model for char {
    type Value = char;

    open spec fn value(&self) -> char {
        *self
    }
}

impl Read for u8 {
    open spec fn decode(c: Cursor, big: bool) -> Decoded<u8> {
        c.fixed(1, |b: Seq<u8>| b[0])
    }

    fn read<E: Endian>(reader: &mut BinaryReader<'_, E>) -> (r: Result<Self, ReadError>) {
        reader.u8()
    }
}

impl Read for i8 {
    open spec fn decode(c: Cursor, big: bool) -> Decoded<i8> {
        c.fixed(1, |b: Seq<u8>| signed_value(b, big) as i8)
    }

    fn read<E: Endian>(reader: &mut BinaryReader<'_, E>) -> (r: Result<Self, ReadError>) {
        reader.i8()
    }
}

impl Read for u16 {
    open spec fn decode(c: Cursor, big: bool) -> Decoded<u16> {
        c.fixed(2, |b: Seq<u8>| unsigned_value(b, big) as u16)
    }

    fn read<E: Endian>(reader: &mut BinaryReader<'_, E>) -> (r: Result<Self, ReadError>) {
        reader.u16()
    }
}

impl Read for i16 {
    open spec fn decode(c: Cursor, big: bool) -> Decoded<i16> {
        c.fixed(2, |b: Seq<u8>| signed_value(b, big) as i16)
    }

    fn read<E: Endian>(reader: &mut BinaryReader<'_, E>) -> (r: Result<Self, ReadError>) {
        reader.i16()
    }
}

impl Read for u32 {
    open spec fn decode(c: Cursor, big: bool) -> Decoded<u32> {
        c.fixed(4, |b: Seq<u8>| unsigned_value(b, big) as u32)
    }

    fn read<E: Endian>(reader: &mut BinaryReader<'_, E>) -> (r: Result<Self, ReadError>) {
        reader.u32()
    }
}

impl Read for i32 {
    open spec fn decode(c: Cursor, big: bool) -> Decoded<i32> {
        c.fixed(4, |b: Seq<u8>| signed_value(b, big) as i32)
    }

    fn read<E: Endian>(reader: &mut BinaryReader<'_, E>) -> (r: Result<Self, ReadError>) {
        reader.i32()
    }
}

impl Read for u64 {
    open spec fn decode(c: Cursor, big: bool) -> Decoded<u64> {
        c.fixed(8, |b: Seq<u8>| unsigned_value(b, big) as u64)
    }

    fn read<E: Endian>(reader: &mut BinaryReader<'_, E>) -> (r: Result<Self, ReadError>) {
        reader.u64()
    }
}

impl Read for i64 {
    open spec fn decode(c: Cursor, big: bool) -> Decoded<i64> {
        c.fixed(8, |b: Seq<u8>| signed_value(b, big) as i64)
    }

    fn read<E: Endian>(reader: &mut BinaryReader<'_, E>) -> (r: Result<Self, ReadError>) {
        reader.i64()
    }
}

/// The boolean for which a byte stands: `0` or `1`, nothing else.
pub open spec fn bool_of_byte(byte: u8) -> Result<bool, Fault> {
    if byte == 0 {
        Ok(false)
    } else if byte == 1 {
        Ok(true)
    } else {
        Err(Fault::InvalidDataFormat)
    }
}

/// The character for which a 32-bit number stands: the one with that code
/// point, where the number is a Unicode scalar value.
pub open spec fn char_of_code(code: u32) -> Result<char, Fault> {
    if is_scalar_value(code) {
        Ok(code as char)
    } else {
        Err(Fault::InvalidDataFormat)
    }
}

/// The boolean for which a byte stands, or the failure to stand for one.
pub fn bool_from_byte(byte: u8) -> (r: Result<bool, ReadError>)
    ensures
        match bool_of_byte(byte) {
            Ok(v) => r == Ok::<bool, ReadError>(v),
            Err(fault) => fails_with(r, fault) && fails_saying(r, "Expected 0 or 1 for boolean"@),
        },
{
    if byte == 0 {
        Ok(false)
    } else if byte == 1 {
        Ok(true)
    } else {
        Err(ReadError::invalid_data_format("Expected 0 or 1 for boolean"))
    }
}

/// The character for which a 32-bit number stands, or the failure to stand
/// for one.
pub fn char_from_code(code: u32) -> (r: Result<char, ReadError>)
    ensures
        match char_of_code(code) {
            Ok(v) => r == Ok::<char, ReadError>(v),
            Err(fault) => fails_with(r, fault) && fails_saying(r, invalid_char_text(code)),
        },
{
    match char::from_u32(code) {
        Some(ch) => Ok(ch),
        None => Err(invalid_char(code)),
    }
}

impl Read for bool {
    open spec fn decode(c: Cursor, big: bool) -> Decoded<bool> {
        Decoded {
            result: match c.transfer(1) {
                Ok(b) => bool_of_byte(b[0]),
                Err(fault) => Err(fault),
            },
            end: c.after(1).pos,
        }
    }

    fn read<E: Endian>(reader: &mut BinaryReader<'_, E>) -> (r: Result<Self, ReadError>) {
        let byte = match reader.u8() {
            Ok(byte) => byte,
            Err(e) => {
                return Err(e);
            },
        };
        bool_from_byte(byte)
    }
}

impl Read for char {
    open spec fn decode(c: Cursor, big: bool) -> Decoded<char> {
        Decoded {
            result: match c.transfer(4) {
                Ok(b) => char_of_code(unsigned_value(b, big) as u32),
                Err(fault) => Err(fault),
            },
            end: c.after(4).pos,
        }
    }

    fn read<E: Endian>(reader: &mut BinaryReader<'_, E>) -> (r: Result<Self, ReadError>) {
        let code = match reader.u32() {
            Ok(code) => code,
            Err(e) => {
                return Err(e);
            },
        };
        char_from_code(code)
    }
}

impl<T1: Model, T2: Model> Model for (T1, T2) {
    type Value = (T1::Value, T2::Value);

    open spec fn value(&self) -> (T1::Value, T2::Value) {
        (self.0.value(), self.1.value())
    }
}

impl<T1: Read, T2: Read> Read for (T1, T2) {
    open spec fn decode(c: Cursor, big: bool) -> Decoded<(T1::Value, T2::Value)> {
        let first = T1::decode(c, big);
        let second = T2::decode(c.at(first.end), big);
        match first.result {
            Ok(v1) => Decoded {
                result: match second.result {
                    Ok(v2) => Ok((v1, v2)),
                    Err(fault) => Err(fault),
                },
                end: second.end,
            },
            Err(fault) => Decoded { result: Err(fault), end: first.end },
        }
    }

    fn read<E: Endian>(reader: &mut BinaryReader<'_, E>) -> (r: Result<Self, ReadError>) {
        let v1 = match T1::read(reader) {
            Ok(v) => v,
            Err(e) => {
                return Err(e);
            },
        };
        let v2 = match T2::read(reader) {
            Ok(v) => v,
            Err(e) => {
                return Err(e);
            },
        };
        Ok((v1, v2))
    }
}

impl<T1: Model, T2: Model, T3: Model> Model for (T1, T2, T3) {
    type Value = (T1::Value, T2::Value, T3::Value);

    open spec fn value(&self) -> (T1::Value, T2::Value, T3::Value) {
        (self.0.value(), self.1.value(), self.2.value())
    }
}

impl<T1: Read, T2: Read, T3: Read> Read for (T1, T2, T3) {
    open spec fn decode(c: Cursor, big: bool) -> Decoded<(T1::Value, T2::Value, T3::Value)> {
        let front = <(T1, T2) as Read>::decode(c, big);
        let back = T3::decode(c.at(front.end), big);
        match front.result {
            Ok((v1, v2)) => Decoded {
                result: match back.result {
                    Ok(v3) => Ok((v1, v2, v3)),
                    Err(fault) => Err(fault),
                },
                end: back.end,
            },
            Err(fault) => Decoded { result: Err(fault), end: front.end },
        }
    }

    fn read<E: Endian>(reader: &mut BinaryReader<'_, E>) -> (r: Result<Self, ReadError>) {
        let v1 = match T1::read(reader) {
            Ok(v) => v,
            Err(e) => {
                return Err(e);
            },
        };
        let v2 = match T2::read(reader) {
            Ok(v) => v,
            Err(e) => {
                return Err(e);
            },
        };
        let v3 = match T3::read(reader) {
            Ok(v) => v,
            Err(e) => {
                return Err(e);
            },
        };
        Ok((v1, v2, v3))
    }
}

impl<T1: Model, T2: Model, T3: Model, T4: Model> Model for (T1, T2, T3, T4) {
    type Value = (T1::Value, T2::Value, T3::Value, T4::Value);

    open spec fn value(&self) -> (T1::Value, T2::Value, T3::Value, T4::Value) {
        (self.0.value(), self.1.value(), self.2.value(), self.3.value())
    }
}

impl<T1: Read, T2: Read, T3: Read, T4: Read> Read for (T1, T2, T3, T4) {
    open spec fn decode(c: Cursor, big: bool) -> Decoded<(T1::Value, T2::Value, T3::Value, T4::Value)> {
        let front = <(T1, T2, T3) as Read>::decode(c, big);
        let back = T4::decode(c.at(front.end), big);
        match front.result {
            Ok((v1, v2, v3)) => Decoded {
                result: match back.result {
                    Ok(v4) => Ok((v1, v2, v3, v4)),
                    Err(fault) => Err(fault),
                },
                end: back.end,
            },
            Err(fault) => Decoded { result: Err(fault), end: front.end },
        }
    }

    fn read<E: Endian>(reader: &mut BinaryReader<'_, E>) -> (r: Result<Self, ReadError>) {
        let v1 = match T1::read(reader) {
            Ok(v) => v,
            Err(e) => {
                return Err(e);
            },
        };
        let v2 = match T2::read(reader) {
            Ok(v) => v,
            Err(e) => {
                return Err(e);
            },
        };
        let v3 = match T3::read(reader) {
            Ok(v) => v,
            Err(e) => {
                return Err(e);
            },
        };
        let v4 = match T4::read(reader) {
            Ok(v) => v,
            Err(e) => {
                return Err(e);
            },
        };
        Ok((v1, v2, v3, v4))
    }
}

impl<T1: Model, T2: Model, T3: Model, T4: Model, T5: Model> Model for (T1, T2, T3, T4, T5) {
    type Value = (T1::Value, T2::Value, T3::Value, T4::Value, T5::Value);

    open spec fn value(&self) -> (T1::Value, T2::Value, T3::Value, T4::Value, T5::Value) {
        (self.0.value(), self.1.value(), self.2.value(), self.3.value(), self.4.value())
    }
}

impl<T1: Read, T2: Read, T3: Read, T4: Read, T5: Read> Read for (T1, T2, T3, T4, T5) {
    open spec fn decode(c: Cursor, big: bool) -> Decoded<(T1::Value, T2::Value, T3::Value, T4::Value, T5::Value)> {
        let front = <(T1, T2, T3, T4) as Read>::decode(c, big);
        let back = T5::decode(c.at(front.end), big);
        match front.result {
            Ok((v1, v2, v3, v4)) => Decoded {
                result: match back.result {
                    Ok(v5) => Ok((v1, v2, v3, v4, v5)),
                    Err(fault) => Err(fault),
                },
                end: back.end,
            },
            Err(fault) => Decoded { result: Err(fault), end: front.end },
        }
    }

    fn read<E: Endian>(reader: &mut BinaryReader<'_, E>) -> (r: Result<Self, ReadError>) {
        let v1 = match T1::read(reader) {
            Ok(v) => v,
            Err(e) => {
                return Err(e);
            },
        };
        let v2 = match T2::read(reader) {
            Ok(v) => v,
            Err(e) => {
                return Err(e);
            },
        };
        let v3 = match T3::read(reader) {
            Ok(v) => v,
            Err(e) => {
                return Err(e);
            },
        };
        let v4 = match T4::read(reader) {
            Ok(v) => v,
            Err(e) => {
                return Err(e);
            },
        };
        let v5 = match T5::read(reader) {
            Ok(v) => v,
            Err(e) => {
                return Err(e);
            },
        };
        Ok((v1, v2, v3, v4, v5))
    }
}

impl<T1: Model, T2: Model, T3: Model, T4: Model, T5: Model, T6: Model> Model for (T1, T2, T3, T4, T5, T6) {
    type Value = (T1::Value, T2::Value, T3::Value, T4::Value, T5::Value, T6::Value);

    open spec fn value(&self) -> (T1::Value, T2::Value, T3::Value, T4::Value, T5::Value, T6::Value) {
        (self.0.value(), self.1.value(), self.2.value(), self.3.value(), self.4.value(), self.5.value())
    }
}

impl<T1: Read, T2: Read, T3: Read, T4: Read, T5: Read, T6: Read> Read for (T1, T2, T3, T4, T5, T6) {
    open spec fn decode(c: Cursor, big: bool) -> Decoded<(T1::Value, T2::Value, T3::Value, T4::Value, T5::Value, T6::Value)> {
        let front = <(T1, T2, T3, T4, T5) as Read>::decode(c, big);
        let back = T6::decode(c.at(front.end), big);
        match front.result {
            Ok((v1, v2, v3, v4, v5)) => Decoded {
                result: match back.result {
                    Ok(v6) => Ok((v1, v2, v3, v4, v5, v6)),
                    Err(fault) => Err(fault),
                },
                end: back.end,
            },
            Err(fault) => Decoded { result: Err(fault), end: front.end },
        }
    }

    fn read<E: Endian>(reader: &mut BinaryReader<'_, E>) -> (r: Result<Self, ReadError>) {
        let v1 = match T1::read(reader) {
            Ok(v) => v,
            Err(e) => {
                return Err(e);
            },
        };
        let v2 = match T2::read(reader) {
            Ok(v) => v,
            Err(e) => {
                return Err(e);
            },
        };
        let v3 = match T3::read(reader) {
            Ok(v) => v,
            Err(e) => {
                return Err(e);
            },
        };
        let v4 = match T4::read(reader) {
            Ok(v) => v,
            Err(e) => {
                return Err(e);
            },
        };
        let v5 = match T5::read(reader) {
            Ok(v) => v,
            Err(e) => {
                return Err(e);
            },
        };
        let v6 = match T6::read(reader) {
            Ok(v) => v,
            Err(e) => {
                return Err(e);
            },
        };
        Ok((v1, v2, v3, v4, v5, v6))
    }
}

impl<T: Model> Model for Option<T> {
    type Value = Option<T::Value>;

    open spec fn value(&self) -> Option<T::Value> {
        match *self {
            Some(v) => Some(v.value()),
            None => None,
        }
    }
}

impl<T: Model> Model for Vec<T> {
    type Value = Seq<T::Value>;

    open spec fn value(&self) -> Seq<T::Value> {
        values_of(self@)
    }
}

impl<T: Model, const N: usize> Model for [T; N] {
    type Value = Seq<T::Value>;

    open spec fn value(&self) -> Seq<T::Value> {
        values_of(self@)
    }
}

/// An optional value decodes with a flag from outside the byte stream: with
/// the flag set it is the value that follows, otherwise it is absent and no
/// byte is consumed.
impl<T: Read> ReadWith<bool> for Option<T> {
    open spec fn decode_with(c: Cursor, big: bool, cond: bool) -> Decoded<Option<T::Value>> {
        if cond {
            let d = T::decode(c, big);
            Decoded {
                result: match d.result {
                    Ok(v) => Ok(Some(v)),
                    Err(fault) => Err(fault),
                },
                end: d.end,
            }
        } else {
            Decoded { result: Ok(None), end: c.pos }
        }
    }

    fn read_with<E: Endian>(reader: &mut BinaryReader<'_, E>, cond: bool) -> (r: Result<
        Self,
        ReadError,
    >) {
        if cond {
            match T::read(reader) {
                Ok(v) => Ok(Some(v)),
                Err(e) => Err(e),
            }
        } else {
            Ok(None)
        }
    }
}

/// Decoding `n` items one after the other, up to the first failure.
pub open spec fn decode_seq<T: Read>(c: Cursor, big: bool, n: nat) -> Decoded<Seq<T::Value>>
    decreases n,
{
    if n == 0 {
        Decoded { result: Ok(Seq::empty()), end: c.pos }
    } else {
        let front = decode_seq::<T>(c, big, (n - 1) as nat);
        let back = T::decode(c.at(front.end), big);
        match front.result {
            Ok(items) => Decoded {
                result: match back.result {
                    Ok(v) => Ok(items.push(v)),
                    Err(fault) => Err(fault),
                },
                end: back.end,
            },
            Err(fault) => front,
        }
    }
}

/// Decoding `n` items one after the other, each with the argument `arg`, up
/// to the first failure.
pub open spec fn decode_seq_with<A, T: ReadWith<A>>(c: Cursor, big: bool, n: nat, arg: A) -> Decoded<
    Seq<T::Value>,
>
    decreases n,
{
    if n == 0 {
        Decoded { result: Ok(Seq::empty()), end: c.pos }
    } else {
        let front = decode_seq_with::<A, T>(c, big, (n - 1) as nat, arg);
        let back = T::decode_with(c.at(front.end), big, arg);
        match front.result {
            Ok(items) => Decoded {
                result: match back.result {
                    Ok(v) => Ok(items.push(v)),
                    Err(fault) => Err(fault),
                },
                end: back.end,
            },
            Err(fault) => front,
        }
    }
}

/// Once a run of decodes has failed, asking for more items changes nothing.
pub proof fn lemma_decode_seq_stops<T: Read>(c: Cursor, big: bool, k: nat, n: nat)
    requires
        k <= n,
        decode_seq::<T>(c, big, k).result is Err,
    ensures
        decode_seq::<T>(c, big, n) == decode_seq::<T>(c, big, k),
    decreases n,
{
    if k < n {
        lemma_decode_seq_stops::<T>(c, big, k, (n - 1) as nat);
    }
}

/// Once a run of decodes with an argument has failed, asking for more items
/// changes nothing.
pub proof fn lemma_decode_seq_with_stops<A, T: ReadWith<A>>(
    c: Cursor,
    big: bool,
    k: nat,
    n: nat,
    arg: A,
)
    requires
        k <= n,
        decode_seq_with::<A, T>(c, big, k, arg).result is Err,
    ensures
        decode_seq_with::<A, T>(c, big, n, arg) == decode_seq_with::<A, T>(c, big, k, arg),
    decreases n,
{
    if k < n {
        lemma_decode_seq_with_stops::<A, T>(c, big, k, (n - 1) as nat, arg);
    }
}

/// Reads `len` items one after the other into a vector.
fn read_items<T: Read, E: Endian>(reader: &mut BinaryReader<'_, E>, len: usize) -> (r: Result<
    Vec<T>,
    ReadError,
>)
    ensures
        final(reader)@ == old(reader)@.at(decode_seq::<T>(old(reader)@, E::big(), len as nat).end),
        match r {
            Ok(items) => items@.len() == len && decode_seq::<T>(
                old(reader)@,
                E::big(),
                len as nat,
            ).result == Ok::<Seq<T::Value>, Fault>(values_of(items@)),
            Err(e) => decode_seq::<T>(old(reader)@, E::big(), len as nat).result == Err::<
                Seq<T::Value>,
                Fault,
            >(e@),
        },
        old(reader)@.pos <= final(reader)@.pos,
        old(reader)@.within_budget() ==> final(reader)@.within_budget(),
{
    let ghost start = reader@;
    let mut items: Vec<T> = Vec::new();
    let mut i: usize = 0;
    assert(values_of(items@) =~= Seq::<T::Value>::empty());
    while i < len
        invariant
            i <= len,
            start == old(reader)@,
            items@.len() == i,
            reader@ == start.at(reader@.pos),
            start.pos <= reader@.pos,
            start.within_budget() ==> reader@.within_budget(),
            decode_seq::<T>(start, E::big(), i as nat) == (Decoded {
                result: Ok::<Seq<T::Value>, Fault>(values_of(items@)),
                end: reader@.pos,
            }),
        decreases len - i,
    {
        let ghost collected = items@;
        match T::read(reader) {
            Ok(v) => {
                items.push(v);
                assert(values_of(items@) =~= values_of(collected).push(v.value()));
            },
            Err(e) => {
                proof {
                    lemma_decode_seq_stops::<T>(start, E::big(), (i + 1) as nat, len as nat);
                }
                return Err(e);
            },
        }
        i = i + 1;
    }
    Ok(items)
}

/// A vector decodes with a count from outside the byte stream: that many
/// items one after the other, with no length field in the bytes.
impl<T: Read> ReadWith<usize> for Vec<T> {
    open spec fn decode_with(c: Cursor, big: bool, len: usize) -> Decoded<Seq<T::Value>> {
        decode_seq::<T>(c, big, len as nat)
    }

    fn read_with<E: Endian>(reader: &mut BinaryReader<'_, E>, len: usize) -> (r: Result<
        Self,
        ReadError,
    >) {
        read_items::<T, E>(reader, len)
    }
}

/// A vector decodes with a count and a shared argument: that many items one
/// after the other, each decoded with the argument.
impl<'b, A, T: ReadWith<&'b A>> ReadWith<(usize, &'b A)> for Vec<T> {
    open spec fn decode_with(c: Cursor, big: bool, arg: (usize, &'b A)) -> Decoded<Seq<T::Value>> {
        decode_seq_with::<&'b A, T>(c, big, arg.0 as nat, arg.1)
    }

    fn read_with<E: Endian>(reader: &mut BinaryReader<'_, E>, arg: (usize, &'b A)) -> (r: Result<
        Self,
        ReadError,
    >) {
        let len = arg.0;
        let shared = arg.1;
        let ghost start = reader@;
        let mut items: Vec<T> = Vec::new();
        let mut i: usize = 0;
        assert(values_of(items@) =~= Seq::<T::Value>::empty());
        while i < len
            invariant
                i <= len,
                len == arg.0,
                shared == arg.1,
                start == old(reader)@,
                items@.len() == i,
                reader@ == start.at(reader@.pos),
                start.pos <= reader@.pos,
                start.within_budget() ==> reader@.within_budget(),
                decode_seq_with::<&'b A, T>(start, E::big(), i as nat, shared) == (Decoded {
                    result: Ok::<Seq<T::Value>, Fault>(values_of(items@)),
                    end: reader@.pos,
                }),
            decreases len - i,
        {
                let ghost collected = items@;
            match T::read_with(reader, shared) {
                Ok(v) => {
                    items.push(v);
                    assert(values_of(items@) =~= values_of(collected).push(v.value()));
                },
                Err(e) => {
                    proof {
                        lemma_decode_seq_with_stops::<&'b A, T>(
                            start,
                            E::big(),
                            (i + 1) as nat,
                            len as nat,
                            shared,
                        );
                    }
                    return Err(e);
                },
            }
            i = i + 1;
        }
        Ok(items)
    }
}

/// `<[T; N]>::try_from` on a vector of exactly `N` items: the array that
/// holds the same items in the same order.
#[verifier::external_body]
fn array_of<T, const N: usize>(items: Vec<T>) -> (r: [T; N])
    requires
        items@.len() == N,
    ensures
        r@ == items@,
{
    <[T; N]>::try_from(items).ok().unwrap()
}

/// An array of `N` items decodes as exactly `N` items one after the other.
impl<T: Read, const N: usize> Read for [T; N] {
    open spec fn decode(c: Cursor, big: bool) -> Decoded<Seq<T::Value>> {
        decode_seq::<T>(c, big, N as nat)
    }

    fn read<E: Endian>(reader: &mut BinaryReader<'_, E>) -> (r: Result<Self, ReadError>) {
        match read_items::<T, E>(reader, N) {
            Ok(items) => Ok(array_of::<T, N>(items)),
            Err(e) => Err(e),
        }
    }
}

} // verus!
