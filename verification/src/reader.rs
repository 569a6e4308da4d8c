//! The decoding cursor: a bounded view of a byte supply that hands out typed
//! values and keeps count of what it has consumed.

use crate::budget::{alignment_pad, Budget};
use crate::endian::{
    signed_of_u8, signed_value, unsigned_value, BigEndian, Endian, LittleEndian,
};
use crate::result::{
    expected_value, fails_saying, fails_with, reserved_mismatch, reserved_text, unexpected_eof,
    Fault, ReadError,
};
use std::marker::PhantomData;
use vstd::prelude::*;
use vstd::slice::slice_subrange;
use vstd::std_specs::cmp::PartialEqSpec;

verus! {

/// The state of a decoding cursor: the whole byte supply, how many of its
/// bytes have been consumed, and the ceiling that consumption may not pass.
pub struct Cursor {
    pub supply: Seq<u8>,
    pub pos: nat,
    pub ceiling: Option<nat>,
}

/// What one decode step yields: the value or the failure, and the position
/// at which the cursor is left.
pub struct Decoded<T> {
    pub result: Result<T, Fault>,
    pub end: nat,
}

impl Cursor {
    /// A cursor at the start of `supply`, with no ceiling.
    pub open spec fn unbounded(supply: Seq<u8>) -> Cursor {
        Cursor { supply, pos: 0, ceiling: None }
    }

    /// A cursor at the start of `supply`, whose ceiling is the supply's length.
    pub open spec fn bounded(supply: Seq<u8>) -> Cursor {
        Cursor { supply, pos: 0, ceiling: Some(supply.len()) }
    }

    /// Consumption has not passed the ceiling.
    pub open spec fn within_budget(self) -> bool {
        self.ceiling matches Some(c) ==> self.pos <= c
    }

    /// The budget covers `n` more bytes.
    pub open spec fn allows(self, n: nat) -> bool {
        self.ceiling matches Some(c) ==> self.pos + n <= c
    }

    /// How many bytes the budget still covers (zero without a ceiling).
    pub open spec fn remaining(self) -> nat {
        match self.ceiling {
            Some(c) => if c >= self.pos {
                (c - self.pos) as nat
            } else {
                0
            },
            None => 0,
        }
    }

    /// Why a transfer of `n` bytes that cannot happen is refused: the budget
    /// is checked first, then the supply.
    pub open spec fn refusal(self, n: nat) -> Fault {
        if !self.allows(n) {
            Fault::NotEnoughBytes { expected: n, remaining: self.remaining() }
        } else {
            Fault::Io
        }
    }

    /// The outcome of asking for `n` bytes: the next `n` bytes of the
    /// supply where the budget and the supply cover them, else the refusal.
    pub open spec fn transfer(self, n: nat) -> Result<Seq<u8>, Fault> {
        if self.allows(n) && self.pos + n <= self.supply.len() {
            Ok(self.bytes_at(self.pos, n))
        } else {
            Err(self.refusal(n))
        }
    }

    /// The `n` bytes of the supply that start at position `from`.
    pub open spec fn bytes_at(self, from: nat, n: nat) -> Seq<u8> {
        self.supply.subrange(from as int, (from + n) as int)
    }

    /// The position that transfers cannot pass: the ceiling or the end of
    /// the supply, whichever comes first, and the cursor's own position
    /// where it lies beyond both.
    pub open spec fn reach(self) -> nat {
        let top = match self.ceiling {
            Some(c) => if c <= self.supply.len() {
                c
            } else {
                self.supply.len()
            },
            None => self.supply.len(),
        };
        if top >= self.pos {
            top
        } else {
            self.pos
        }
    }

    /// This cursor moved to position `pos`.
    pub open spec fn at(self, pos: nat) -> Cursor {
        Cursor { pos, ..self }
    }

    /// This cursor after asking for `n` bytes: advanced by exactly `n` if the
    /// transfer succeeds, unchanged if it fails.
    pub open spec fn after(self, n: nat) -> Cursor {
        if self.transfer(n) is Ok {
            self.at(self.pos + n)
        } else {
            self
        }
    }

    /// This cursor with the ceiling `ceiling`.
    pub open spec fn with_ceiling(self, ceiling: Option<nat>) -> Cursor {
        Cursor { ceiling, ..self }
    }

    /// This cursor with its ceiling exactly `len` bytes past its position.
    pub open spec fn scoped(self, len: nat) -> Cursor {
        self.with_ceiling(Some(self.pos + len))
    }

    /// Decoding a value of `n` bytes that `f` interprets.
    pub open spec fn fixed<T>(self, n: nat, f: spec_fn(Seq<u8>) -> T) -> Decoded<T> {
        Decoded {
            result: match self.transfer(n) {
                Ok(bytes) => Ok(f(bytes)),
                Err(fault) => Err(fault),
            },
            end: self.after(n).pos,
        }
    }
}

/// Whether the probe `f`, applied to the `i`-th chunk of `N` bytes that
/// follows the cursor `c`, may answer `out`.
pub open spec fn probed<T, const N: usize, F: Fn(&[u8; N]) -> Option<T>>(
    c: Cursor,
    f: F,
    i: nat,
    out: Option<T>,
) -> bool {
    c.at((c.pos + i * N) as nat).transfer(N as nat) matches Ok(bytes) && exists|chunk: [u8; N]|
        chunk@ == bytes && #[trigger] f.ensures((&chunk,), out)
}

/// Whether the probe `f` may produce a value from the `i`-th chunk of `N`
/// bytes that follows the cursor `c`.
pub open spec fn produces<T, const N: usize, F: Fn(&[u8; N]) -> Option<T>>(
    c: Cursor,
    f: F,
    i: nat,
) -> bool {
    exists|v: T| probed(c, f, i, Some(v))
}

/// Whether a run of the probe `f` from the cursor `c` produces a value from
/// each of the first `k` chunks of `N` bytes and then, at position `end`,
/// fails to get the next chunk for the reason `fault`.
pub open spec fn stopped<T, const N: usize, F: Fn(&[u8; N]) -> Option<T>>(
    c: Cursor,
    f: F,
    k: nat,
    end: nat,
    fault: Fault,
) -> bool {
    &&& end == c.pos + k * N
    &&& forall|i: nat| i < k ==> #[trigger] produces(c, f, i)
    &&& c.at(end).transfer(N as nat) == Err::<Seq<u8>, Fault>(fault)
}

/// Whether every byte of `bytes` is `value`.
pub open spec fn all_equal(bytes: Seq<u8>, value: u8) -> bool {
    forall|i: int| 0 <= i < bytes.len() ==> bytes[i] == value
}

/// Whether `found` is the first byte of `bytes` that is not `value`.
pub open spec fn first_other(bytes: Seq<u8>, value: u8, found: u8) -> bool {
    exists|i: int|
        0 <= i < bytes.len() && all_equal(bytes.take(i), value) && #[trigger] bytes[i] == found
            && found != value
}

/// What a check of reserved bytes makes of `bytes`: nothing where every
/// byte is `value`, else the failure that names the first byte that is not.
pub open spec fn reserved_checked(bytes: Seq<u8>, value: u8, r: Result<(), ReadError>) -> bool {
    if all_equal(bytes, value) {
        r is Ok
    } else {
        &&& fails_with(r, Fault::InvalidDataFormat)
        &&& exists|found: u8|
            first_other(bytes, value, found) && #[trigger] fails_saying(
                r,
                reserved_text(value, found),
            )
    }
}

/// Checks that every byte of `data` is `expected_value`.
pub fn check_reserved(data: &[u8], expected_value: u8) -> (r: Result<(), ReadError>)
    ensures
        reserved_checked(data@, expected_value, r),
{
    let mut i: usize = 0;
    while i < data.len()
        invariant
            i <= data@.len(),
            forall|k: int| 0 <= k < i ==> data@[k] == expected_value,
        decreases data@.len() - i,
    {
        let byte = data[i];
        if byte != expected_value {
            let r = Err(reserved_mismatch(expected_value, byte));
            proof {
                assert(all_equal(data@.take(i as int), expected_value));
                assert(data@[i as int] == byte);
                assert(first_other(data@, expected_value, byte));
                assert(fails_saying(r, reserved_text(expected_value, byte)));
            }
            return r;
        }
        i = i + 1;
    }
    Ok(())
}

/// Checks that the value `found` equals the value `expected`.
pub fn check_value<T: PartialEq + std::fmt::Debug>(found: &T, expected: &T) -> (r: Result<
    (),
    ReadError,
>)
    ensures
        r is Ok || fails_with(r, Fault::InvalidDataFormat),
        r matches Err(e) ==> e.names_expectation(),
        T::obeys_eq_spec() ==> (r is Ok <==> found.eq_spec(expected)),
{
    if *found != *expected {
        return Err(expected_value(expected));
    }
    Ok(())
}

/// A decoding cursor over an in-memory byte supply, reading multi-byte
/// numbers in the byte order `E`.
pub struct BinaryReader<'a, E: Endian> {
    pub(crate) data: &'a [u8],
    pub(crate) budget: Budget,
    pub(crate) _endian: PhantomData<E>,
}

impl<'a, E: Endian> View for BinaryReader<'a, E> {
    type V = Cursor;

    open(crate) spec fn view(&self) -> Cursor {
        Cursor {
            supply: self.data@,
            pos: self.budget.pos(),
            ceiling: self.budget.ceiling(),
        }
    }
}

impl<'a> BinaryReader<'a, LittleEndian> {
    /// A little-endian cursor at the start of `data`, with no ceiling.
    pub fn new_le(data: &'a [u8]) -> (r: Self)
        ensures
            r@ == Cursor::unbounded(data@),
    {
        BinaryReader::new(data)
    }

    /// A little-endian cursor at the start of `data`, whose ceiling is the
    /// length of `data`.
    pub fn from_le_bytes(data: &'a [u8]) -> (r: Self)
        ensures
            r@ == Cursor::bounded(data@),
    {
        BinaryReader::from_bytes(data)
    }
}

impl<'a> BinaryReader<'a, BigEndian> {
    /// A big-endian cursor at the start of `data`, with no ceiling.
    pub fn new_be(data: &'a [u8]) -> (r: Self)
        ensures
            r@ == Cursor::unbounded(data@),
    {
        BinaryReader::new(data)
    }

    /// A big-endian cursor at the start of `data`, whose ceiling is the
    /// length of `data`.
    pub fn from_be_bytes(data: &'a [u8]) -> (r: Self)
        ensures
            r@ == Cursor::bounded(data@),
    {
        BinaryReader::from_bytes(data)
    }
}

impl<'a, E: Endian> BinaryReader<'a, E> {
    /// A cursor at the start of `data`, with no ceiling.
    pub fn new(data: &'a [u8]) -> (r: Self)
        ensures
            r@ == Cursor::unbounded(data@),
    {
        BinaryReader { data, budget: Budget::new(), _endian: PhantomData }
    }

    /// A cursor at the start of `data`, whose ceiling is the length of `data`.
    pub fn from_bytes(data: &'a [u8]) -> (r: Self)
        ensures
            r@ == Cursor::bounded(data@),
    {
        BinaryReader { data, budget: Budget::with_ceiling(data.len()), _endian: PhantomData }
    }

    #[verifier::type_invariant]
    pub(crate) open spec fn inv(&self) -> bool {
        self.budget.total_bytes_read <= self.data@.len()
    }

    /// How many bytes have been consumed so far.
    pub fn total_bytes_read(&self) -> (n: usize)
        ensures
            n == self@.pos,
    {
        self.budget.total_bytes_read()
    }

    /// Checks that the budget covers `len` more bytes.
    pub fn check_size(&self, len: usize) -> (r: Result<(), ReadError>)
        ensures
            self@.allows(len as nat) ==> r is Ok,
            !self@.allows(len as nat) ==> fails_with(
                r,
                Fault::NotEnoughBytes { expected: len as nat, remaining: self@.remaining() },
            ),
    {
        self.budget.check_size(len)
    }

    /// Takes the next `len` bytes, or fails and leaves the cursor as it was.
    fn take(&mut self, len: usize) -> (r: Result<&'a [u8], ReadError>)
        ensures
            final(self)@ == old(self)@.after(len as nat),
            match old(self)@.transfer(len as nat) {
                Ok(bytes) => r is Ok && r.unwrap()@ == bytes,
                Err(fault) => fails_with(r, fault),
            },
    {
        proof {
            use_type_invariant(&*self);
        }
        match self.check_size(len) {
            Ok(()) => {},
            Err(e) => {
                return Err(e);
            },
        }
        let start = self.budget.total_bytes_read();
        if len > self.data.len() - start {
            return Err(ReadError::io_error(unexpected_eof()));
        }
        let bytes = slice_subrange(self.data, start, start + len);
        self.budget.advance(len);
        Ok(bytes)
    }
    /// Takes the next `N` bytes as an array, or fails and leaves the cursor
    /// as it was.
    fn take_array<const N: usize>(&mut self) -> (r: Result<[u8; N], ReadError>)
        ensures
            final(self)@ == old(self)@.after(N as nat),
            match old(self)@.transfer(N as nat) {
                Ok(bytes) => r is Ok && r.unwrap()@ == bytes,
                Err(fault) => fails_with(r, fault),
            },
    {
        let bytes = match self.take(N) {
            Ok(bytes) => bytes,
            Err(e) => {
                return Err(e);
            },
        };
        let mut buf = [0u8; N];
        let mut i: usize = 0;
        while i < N
            invariant
                i <= N,
                bytes@.len() == N,
                buf@.len() == N,
                forall|k: int| 0 <= k < i ==> buf@[k] == bytes@[k],
            decreases N - i,
        {
            buf[i] = bytes[i];
            i = i + 1;
        }
        assert(buf@ =~= bytes@);
        Ok(buf)
    }

    /// Reads `len` bytes and returns what `parse` makes of them. Fails,
    /// without consuming anything, when the budget or the supply does not
    /// cover `len` bytes.
    pub fn read_from_slice<T>(
        &mut self,
        len: usize,
        parse: impl Fn(&[u8]) -> Result<T, ReadError>,
    ) -> (r: Result<T, ReadError>)
        requires
            forall|bytes: &[u8]| bytes@.len() == len ==> parse.requires((bytes,)),
        ensures
            final(self)@ == old(self)@.after(len as nat),
            match old(self)@.transfer(len as nat) {
                Ok(bytes) => exists|b: &[u8]| b@ == bytes && #[trigger] parse.ensures((b,), r),
                Err(fault) => fails_with(r, fault),
            },
    {
        let bytes = match self.take(len) {
            Ok(bytes) => bytes,
            Err(e) => {
                return Err(e);
            },
        };
        parse(bytes)
    }

    /// Reads exactly `N` bytes into an array and returns what `parse` makes
    /// of it.
    pub fn read_from_array<T, const N: usize>(&mut self, parse: impl Fn(&[u8; N]) -> T) -> (r:
        Result<T, ReadError>)
        requires
            forall|bytes: &[u8; N]| parse.requires((bytes,)),
        ensures
            final(self)@ == old(self)@.after(N as nat),
            match old(self)@.transfer(N as nat) {
                Ok(bytes) => exists|b: [u8; N], value: T|
                    b@ == bytes && #[trigger] parse.ensures((&b,), value) && r == Ok::<
                        T,
                        ReadError,
                    >(value),
                Err(fault) => fails_with(r, fault),
            },
    {
        let buf = match self.take_array::<N>() {
            Ok(buf) => buf,
            Err(e) => {
                return Err(e);
            },
        };
        let value = parse(&buf);
        Ok(value)
    }

    /// Reads chunks of `N` bytes for as long as the probe `try_parse`
    /// produces a value from them, and returns the values in order. The
    /// chunk on which the probe answers `None` is consumed and ends the run.
    /// Fails when the budget or the supply ends before that; the chunks read
    /// until then stay consumed.
    pub fn read_while<T, const N: usize>(
        &mut self,
        try_parse: impl Fn(&[u8; N]) -> Option<T>,
    ) -> (r: Result<Vec<T>, ReadError>)
        requires
            N > 0,
            forall|chunk: &[u8; N]| try_parse.requires((chunk,)),
        ensures
            final(self)@ == old(self)@.at(final(self)@.pos),
            match r {
                Ok(values) => {
                    &&& final(self)@.pos == old(self)@.pos + (values@.len() + 1) * N
                    &&& forall|i: int|
                        0 <= i < values@.len() ==> probed(
                            old(self)@,
                            try_parse,
                            i as nat,
                            Some(#[trigger] values@[i]),
                        )
                    &&& probed(old(self)@, try_parse, values@.len(), None::<T>)
                },
                Err(e) => exists|k: nat| #[trigger]
                    stopped(old(self)@, try_parse, k, final(self)@.pos, e@),
            },
    {
        let mut values: Vec<T> = Vec::new();
        let ghost start = self@;
        assert(values@.len() * N == 0) by (nonlinear_arith)
            requires
                values@.len() == 0,
        ;
        loop
            invariant
                N > 0,
                forall|chunk: &[u8; N]| try_parse.requires((chunk,)),
                start == old(self)@,
                self@ == start.at(self@.pos),
                self@.pos == start.pos + values@.len() * N,
                forall|i: int|
                    0 <= i < values@.len() ==> probed(
                        start,
                        try_parse,
                        i as nat,
                        Some(#[trigger] values@[i]),
                    ),
            decreases self@.supply.len() - self@.pos,
        {
            proof {
                use_type_invariant(&*self);
            }
            let ghost k = values@.len();
            let chunk = match self.take_array::<N>() {
                Ok(chunk) => chunk,
                Err(e) => {
                    proof {
                        assert forall|i: nat| i < k implies #[trigger] produces(
                            start,
                            try_parse,
                            i,
                        ) by {
                            assert(probed(start, try_parse, i, Some(values@[i as int])));
                        }
                        assert(stopped(start, try_parse, k, self@.pos, e@));
                    }
                    return Err(e);
                },
            };
            proof {
                assert((k + 1) * N == k * N + N) by (nonlinear_arith);
            }
            match try_parse(&chunk) {
                Some(v) => {
                    values.push(v);
                },
                None => {
                    return Ok(values);
                },
            }
        }
    }

    /// Reads an unsigned 8-bit integer.
    pub fn u8(&mut self) -> (r: Result<u8, ReadError>)
        ensures
            final(self)@ == old(self)@.after(1),
            match old(self)@.transfer(1) {
                Ok(bytes) => r == Ok::<u8, ReadError>(bytes[0]),
                Err(fault) => fails_with(r, fault),
            },
    {
        match self.take_array::<1>() {
            Ok(b) => Ok(b[0]),
            Err(e) => Err(e),
        }
    }

    /// Reads a signed 8-bit integer.
    pub fn i8(&mut self) -> (r: Result<i8, ReadError>)
        ensures
            final(self)@ == old(self)@.after(1),
            match old(self)@.transfer(1) {
                Ok(bytes) => r is Ok && r.unwrap() as int == signed_value(bytes, E::big()),
                Err(fault) => fails_with(r, fault),
            },
    {
        match self.take_array::<1>() {
            Ok(b) => {
                proof {
                    reveal_with_fuel(crate::endian::le_value, 2);
                }
                Ok(signed_of_u8(b[0]))
            },
            Err(e) => Err(e),
        }
    }

    /// Reads an unsigned 16-bit integer in this cursor's byte order.
    pub fn u16(&mut self) -> (r: Result<u16, ReadError>)
        ensures
            final(self)@ == old(self)@.after(2),
            match old(self)@.transfer(2) {
                Ok(bytes) => r is Ok && r.unwrap() as nat == unsigned_value(bytes, E::big()),
                Err(fault) => fails_with(r, fault),
            },
    {
        match self.take_array::<2>() {
            Ok(b) => Ok(E::u16_from_bytes(&b)),
            Err(e) => Err(e),
        }
    }

    /// Reads a signed 16-bit integer in this cursor's byte order.
    pub fn i16(&mut self) -> (r: Result<i16, ReadError>)
        ensures
            final(self)@ == old(self)@.after(2),
            match old(self)@.transfer(2) {
                Ok(bytes) => r is Ok && r.unwrap() as int == signed_value(bytes, E::big()),
                Err(fault) => fails_with(r, fault),
            },
    {
        match self.take_array::<2>() {
            Ok(b) => Ok(E::i16_from_bytes(&b)),
            Err(e) => Err(e),
        }
    }

    /// Reads an unsigned 32-bit integer in this cursor's byte order.
    pub fn u32(&mut self) -> (r: Result<u32, ReadError>)
        ensures
            final(self)@ == old(self)@.after(4),
            match old(self)@.transfer(4) {
                Ok(bytes) => r is Ok && r.unwrap() as nat == unsigned_value(bytes, E::big()),
                Err(fault) => fails_with(r, fault),
            },
    {
        match self.take_array::<4>() {
            Ok(b) => Ok(E::u32_from_bytes(&b)),
            Err(e) => Err(e),
        }
    }

    /// Reads a signed 32-bit integer in this cursor's byte order.
    pub fn i32(&mut self) -> (r: Result<i32, ReadError>)
        ensures
            final(self)@ == old(self)@.after(4),
            match old(self)@.transfer(4) {
                Ok(bytes) => r is Ok && r.unwrap() as int == signed_value(bytes, E::big()),
                Err(fault) => fails_with(r, fault),
            },
    {
        match self.take_array::<4>() {
            Ok(b) => Ok(E::i32_from_bytes(&b)),
            Err(e) => Err(e),
        }
    }

    /// Reads an unsigned 64-bit integer in this cursor's byte order.
    pub fn u64(&mut self) -> (r: Result<u64, ReadError>)
        ensures
            final(self)@ == old(self)@.after(8),
            match old(self)@.transfer(8) {
                Ok(bytes) => r is Ok && r.unwrap() as nat == unsigned_value(bytes, E::big()),
                Err(fault) => fails_with(r, fault),
            },
    {
        match self.take_array::<8>() {
            Ok(b) => Ok(E::u64_from_bytes(&b)),
            Err(e) => Err(e),
        }
    }

    /// Reads a signed 64-bit integer in this cursor's byte order.
    pub fn i64(&mut self) -> (r: Result<i64, ReadError>)
        ensures
            final(self)@ == old(self)@.after(8),
            match old(self)@.transfer(8) {
                Ok(bytes) => r is Ok && r.unwrap() as int == signed_value(bytes, E::big()),
                Err(fault) => fails_with(r, fault),
            },
    {
        match self.take_array::<8>() {
            Ok(b) => Ok(E::i64_from_bytes(&b)),
            Err(e) => Err(e),
        }
    }

    /// Reads `N` bytes and checks that each of them is `expected_value`.
    /// The bytes are consumed whether or not they match.
    pub fn reserved<const N: usize>(&mut self, expected_value: u8) -> (r: Result<(), ReadError>)
        ensures
            final(self)@ == old(self)@.after(N as nat),
            match old(self)@.transfer(N as nat) {
                Ok(bytes) => reserved_checked(bytes, expected_value, r),
                Err(fault) => fails_with(r, fault),
            },
    {
        let data = match self.take_array::<N>() {
            Ok(data) => data,
            Err(e) => {
                return Err(e);
            },
        };
        check_reserved(data.as_slice(), expected_value)
    }

    /// Skips `bytes` bytes.
    pub fn skip(&mut self, bytes: usize) -> (r: Result<(), ReadError>)
        ensures
            final(self)@ == old(self)@.after(bytes as nat),
            match old(self)@.transfer(bytes as nat) {
                Ok(_) => r is Ok,
                Err(fault) => fails_with(r, fault),
            },
    {
        match self.take(bytes) {
            Ok(_) => Ok(()),
            Err(e) => Err(e),
        }
    }

    /// Skips to the next position that is a multiple of `align`; skips
    /// nothing when the position already is one.
    pub fn skip_aligned(&mut self, align: usize) -> (r: Result<(), ReadError>)
        requires
            align > 0,
        ensures
            ({
                let pad = alignment_pad(old(self)@.pos, align as nat);
                if pad == 0 {
                    r is Ok && final(self)@ == old(self)@
                } else {
                    &&& final(self)@ == old(self)@.after(pad)
                    &&& match old(self)@.transfer(pad) {
                        Ok(_) => r is Ok,
                        Err(fault) => fails_with(r, fault),
                    }
                }
            }),
    {
        let pad = self.budget.padding(align);
        if pad != 0 {
            self.skip(pad)
        } else {
            Ok(())
        }
    }
}

/// A type whose values stand for mathematical values: what contracts say
/// of a decoded item.
pub trait Model: Sized {
    type Value;

    /// The mathematical value of this item. Left open where a type states
    /// none.
    open spec fn value(&self) -> Self::Value {
        arbitrary()
    }
}

/// The outcome of a decode as contracts see it: the value's model, or the
/// kind of the failure.
pub open spec fn outcome<T: Model>(r: Result<T, ReadError>) -> Result<T::Value, Fault> {
    match r {
        Ok(v) => Ok(v.value()),
        Err(e) => Err(e@),
    }
}

/// A type that decodes itself from a cursor.
///
/// `decode` says what one decode step yields from a cursor state in a byte
/// order; `read` performs it. A decode never moves the cursor backwards,
/// never changes the supply or the ceiling, and never takes the cursor past
/// a ceiling that it had not passed before.
pub trait Read: Model {
    /// What one decode step yields. Left open where a type states nothing.
    open spec fn decode(c: Cursor, big: bool) -> Decoded<Self::Value> {
        arbitrary()
    }

    fn read<E: Endian>(reader: &mut BinaryReader<'_, E>) -> (r: Result<Self, ReadError>)
        ensures
            final(reader)@ == old(reader)@.at(Self::decode(old(reader)@, E::big()).end),
            outcome(r) == Self::decode(old(reader)@, E::big()).result,
            old(reader)@.pos <= final(reader)@.pos,
            old(reader)@.within_budget() ==> final(reader)@.within_budget(),
    ;
}

/// A type that decodes itself from a cursor with the help of an argument
/// that the caller supplies: a length, a flag, a discriminant.
pub trait ReadWith<A>: Model {
    /// What one decode step yields. Left open where a type states nothing.
    open spec fn decode_with(c: Cursor, big: bool, arg: A) -> Decoded<Self::Value> {
        arbitrary()
    }

    fn read_with<E: Endian>(reader: &mut BinaryReader<'_, E>, arg: A) -> (r: Result<
        Self,
        ReadError,
    >)
        ensures
            final(reader)@ == old(reader)@.at(Self::decode_with(old(reader)@, E::big(), arg).end),
            outcome(r) == Self::decode_with(old(reader)@, E::big(), arg).result,
            old(reader)@.pos <= final(reader)@.pos,
            old(reader)@.within_budget() ==> final(reader)@.within_budget(),
    ;
}

/// Whether `==` on `T` holds exactly of the items that stand for the same value.
pub open spec fn eq_by_value<T: Model + PartialEq>() -> bool {
    &&& T::obeys_eq_spec()
    &&& forall|a: T, b: T| (#[trigger] a.eq_spec(&b)) <==> (a.value() == b.value())
}

/// Decoding one item and holding it against the value `expected`.
pub open spec fn verify_one<T: Read>(c: Cursor, big: bool, expected: T::Value) -> Decoded<()> {
    let d = T::decode(c, big);
    Decoded {
        result: match d.result {
            Ok(v) => if v == expected {
                Ok(())
            } else {
                Err(Fault::InvalidDataFormat)
            },
            Err(fault) => Err(fault),
        },
        end: d.end,
    }
}

/// Decoding items one after the other and holding each against the value
/// expected at its place, up to the first failure.
pub open spec fn verify_seq<T: Read>(c: Cursor, big: bool, expected: Seq<T::Value>) -> Decoded<()>
    decreases expected.len(),
{
    if expected.len() == 0 {
        Decoded { result: Ok(()), end: c.pos }
    } else {
        let before = verify_seq::<T>(c, big, expected.drop_last());
        if before.result is Ok {
            verify_one::<T>(c.at(before.end), big, expected.last())
        } else {
            before
        }
    }
}

/// The values for which the items of `items` stand.
pub open spec fn values_of<T: Model>(items: Seq<T>) -> Seq<T::Value> {
    Seq::new(items.len(), |i: int| items[i].value())
}

/// Whether a result is a success, whatever it holds.
pub open spec fn succeeded<T>(r: Result<T, ReadError>) -> Result<(), Fault> {
    match r {
        Ok(_) => Ok(()),
        Err(e) => Err(e@),
    }
}

impl<'a, E: Endian> BinaryReader<'a, E> {
    /// Reads a value of any type that decodes itself.
    pub fn read<T: Read>(&mut self) -> (r: Result<T, ReadError>)
        ensures
            final(self)@ == old(self)@.at(T::decode(old(self)@, E::big()).end),
            outcome(r) == T::decode(old(self)@, E::big()).result,
            old(self)@.pos <= final(self)@.pos,
            old(self)@.within_budget() ==> final(self)@.within_budget(),
    {
        T::read(self)
    }

    /// Reads a value of any type that decodes itself with an argument.
    pub fn read_with<T: ReadWith<U>, U>(&mut self, arg: U) -> (r: Result<T, ReadError>)
        ensures
            final(self)@ == old(self)@.at(T::decode_with(old(self)@, E::big(), arg).end),
            outcome(r) == T::decode_with(old(self)@, E::big(), arg).result,
            old(self)@.pos <= final(self)@.pos,
            old(self)@.within_budget() ==> final(self)@.within_budget(),
    {
        T::read_with(self, arg)
    }

    /// Reads a value and checks that it equals `value`. The bytes of the
    /// value read are consumed whether or not it matches.
    pub fn value<T: PartialEq + Read + std::fmt::Debug>(&mut self, value: &T) -> (r: Result<
        (),
        ReadError,
    >)
        ensures
            final(self)@ == old(self)@.at(T::decode(old(self)@, E::big()).end),
            old(self)@.pos <= final(self)@.pos,
            old(self)@.within_budget() ==> final(self)@.within_budget(),
            T::decode(old(self)@, E::big()).result matches Err(fault) ==> fails_with(r, fault),
            T::decode(old(self)@, E::big()).result is Ok ==> r is Ok || fails_with(
                r,
                Fault::InvalidDataFormat,
            ),
            T::decode(old(self)@, E::big()).result is Ok ==> (r matches Err(e)
                ==> e.names_expectation()),
            T::obeys_eq_spec() ==> (T::decode(old(self)@, E::big()).result matches Ok(v)
                ==> exists|found: T|
                found.value() == v && (r is Ok <==> #[trigger] found.eq_spec(value))),
            eq_by_value::<T>() ==> succeeded(r) == verify_one::<T>(
                old(self)@,
                E::big(),
                value.value(),
            ).result,
    {
        let found = match T::read(self) {
            Ok(found) => found,
            Err(e) => {
                return Err(e);
            },
        };
        check_value(&found, value)
    }
}

/// Once a run of checks has failed, further expectations change nothing.
pub proof fn lemma_verify_seq_stops<T: Read>(c: Cursor, big: bool, expected: Seq<T::Value>, j: int)
    requires
        0 <= j <= expected.len(),
        verify_seq::<T>(c, big, expected.take(j)).result is Err,
    ensures
        verify_seq::<T>(c, big, expected) == verify_seq::<T>(c, big, expected.take(j)),
    decreases expected.len(),
{
    if j == expected.len() {
        assert(expected.take(j) =~= expected);
    } else {
        assert(expected.drop_last().take(j) =~= expected.take(j));
        lemma_verify_seq_stops::<T>(c, big, expected.drop_last(), j);
    }
}

impl<'a, E: Endian> BinaryReader<'a, E> {
    /// Reads one value for each item of `values`, in order, and checks that
    /// it equals the item. Stops at the first value that cannot be read or
    /// does not match.
    pub fn values<T: PartialEq + Read + std::fmt::Debug>(&mut self, values: &[T]) -> (r: Result<
        (),
        ReadError,
    >)
        ensures
            final(self)@ == old(self)@.at(final(self)@.pos),
            old(self)@.pos <= final(self)@.pos,
            old(self)@.within_budget() ==> final(self)@.within_budget(),
            eq_by_value::<T>() ==> succeeded(r) == verify_seq::<T>(
                old(self)@,
                E::big(),
                values_of(values@),
            ).result,
            eq_by_value::<T>() ==> final(self)@.pos == verify_seq::<T>(
                old(self)@,
                E::big(),
                values_of(values@),
            ).end,
    {
        let ghost start = self@;
        let ghost expected = values_of(values@);
        let mut i: usize = 0;
        while i < values.len()
            invariant
                i <= values@.len(),
                start == old(self)@,
                expected == values_of(values@),
                self@ == start.at(self@.pos),
                start.pos <= self@.pos,
                start.within_budget() ==> self@.within_budget(),
                eq_by_value::<T>() ==> verify_seq::<T>(start, E::big(), expected.take(i as int))
                    == (Decoded { result: Ok::<(), Fault>(()), end: self@.pos }),
            decreases values@.len() - i,
        {
            let r = self.value(&values[i]);
            proof {
                assert(expected.take(i + 1).drop_last() =~= expected.take(i as int));
            }
            match r {
                Ok(()) => {},
                Err(e) => {
                    proof {
                        if eq_by_value::<T>() {
                            lemma_verify_seq_stops::<T>(start, E::big(), expected, i + 1);
                        }
                    }
                    return Err(e);
                },
            }
            i = i + 1;
        }
        proof {
            assert(expected.take(i as int) =~= expected);
        }
        Ok(())
    }

    /// Reads one value within a scope of exactly `len` bytes: for the time
    /// of the read the ceiling lies `len` bytes past the cursor; afterwards
    /// the former ceiling is back, whether the read succeeded or failed.
    pub fn read_partial<T: Read>(&mut self, len: usize) -> (r: Result<T, ReadError>)
        ensures
            final(self)@ == old(self)@.at(T::decode(old(self)@.scoped(len as nat), E::big()).end),
            outcome(r) == T::decode(old(self)@.scoped(len as nat), E::big()).result,
            old(self)@.pos <= final(self)@.pos <= old(self)@.pos + len,
            old(self)@.within_budget() && old(self)@.allows(len as nat)
                ==> final(self)@.within_budget(),
    {
        proof {
            use_type_invariant(&*self);
        }
        let saved = self.budget.enter_scope(len);
        let result = T::read(self);
        proof {
            use_type_invariant(&*self);
        }
        let restored = self.budget.exit_scope(saved);
        assert(restored);
        result
    }

    /// Reads one value with an argument within a scope of exactly `len`
    /// bytes; the former ceiling is back afterwards, whether the read
    /// succeeded or failed.
    pub fn read_partial_with<U, T: ReadWith<U>>(&mut self, len: usize, arg: U) -> (r: Result<
        T,
        ReadError,
    >)
        ensures
            final(self)@ == old(self)@.at(
                T::decode_with(old(self)@.scoped(len as nat), E::big(), arg).end,
            ),
            outcome(r) == T::decode_with(old(self)@.scoped(len as nat), E::big(), arg).result,
            old(self)@.pos <= final(self)@.pos <= old(self)@.pos + len,
            old(self)@.within_budget() && old(self)@.allows(len as nat)
                ==> final(self)@.within_budget(),
    {
        proof {
            use_type_invariant(&*self);
        }
        let saved = self.budget.enter_scope(len);
        let result = T::read_with(self, arg);
        proof {
            use_type_invariant(&*self);
        }
        let restored = self.budget.exit_scope(saved);
        assert(restored);
        result
    }
}

impl<'a> BinaryReader<'a, LittleEndian> {
    /// Reads one value in big-endian order. The cursor's own order stays
    /// little-endian, and its position afterwards accounts for the read.
    pub fn read_as_be<T: Read>(&mut self) -> (r: Result<T, ReadError>)
        ensures
            final(self)@ == old(self)@.at(T::decode(old(self)@, true).end),
            outcome(r) == T::decode(old(self)@, true).result,
            old(self)@.pos <= final(self)@.pos,
            old(self)@.within_budget() ==> final(self)@.within_budget(),
    {
        proof {
            use_type_invariant(&*self);
        }
        let mut child: BinaryReader<'a, BigEndian> = BinaryReader {
            data: self.data,
            budget: self.budget,
            _endian: PhantomData,
        };
        let result = T::read(&mut child);
        proof {
            use_type_invariant(&child);
        }
        self.budget = child.budget;
        result
    }

    /// Reads one value with an argument in big-endian order.
    pub fn read_as_be_with<T: ReadWith<U>, U>(&mut self, arg: U) -> (r: Result<T, ReadError>)
        ensures
            final(self)@ == old(self)@.at(T::decode_with(old(self)@, true, arg).end),
            outcome(r) == T::decode_with(old(self)@, true, arg).result,
            old(self)@.pos <= final(self)@.pos,
            old(self)@.within_budget() ==> final(self)@.within_budget(),
    {
        proof {
            use_type_invariant(&*self);
        }
        let mut child: BinaryReader<'a, BigEndian> = BinaryReader {
            data: self.data,
            budget: self.budget,
            _endian: PhantomData,
        };
        let result = T::read_with(&mut child, arg);
        proof {
            use_type_invariant(&child);
        }
        self.budget = child.budget;
        result
    }
}

impl<'a> BinaryReader<'a, BigEndian> {
    /// Reads one value in little-endian order. The cursor's own order stays
    /// big-endian, and its position afterwards accounts for the read.
    pub fn read_as_le<T: Read>(&mut self) -> (r: Result<T, ReadError>)
        ensures
            final(self)@ == old(self)@.at(T::decode(old(self)@, false).end),
            outcome(r) == T::decode(old(self)@, false).result,
            old(self)@.pos <= final(self)@.pos,
            old(self)@.within_budget() ==> final(self)@.within_budget(),
    {
        proof {
            use_type_invariant(&*self);
        }
        let mut child: BinaryReader<'a, LittleEndian> = BinaryReader {
            data: self.data,
            budget: self.budget,
            _endian: PhantomData,
        };
        let result = T::read(&mut child);
        proof {
            use_type_invariant(&child);
        }
        self.budget = child.budget;
        result
    }

    /// Reads one value with an argument in little-endian order.
    pub fn read_as_le_with<T: ReadWith<U>, U>(&mut self, arg: U) -> (r: Result<T, ReadError>)
        ensures
            final(self)@ == old(self)@.at(T::decode_with(old(self)@, false, arg).end),
            outcome(r) == T::decode_with(old(self)@, false, arg).result,
            old(self)@.pos <= final(self)@.pos,
            old(self)@.within_budget() ==> final(self)@.within_budget(),
    {
        proof {
            use_type_invariant(&*self);
        }
        let mut child: BinaryReader<'a, LittleEndian> = BinaryReader {
            data: self.data,
            budget: self.budget,
            _endian: PhantomData,
        };
        let result = T::read_with(&mut child, arg);
        proof {
            use_type_invariant(&child);
        }
        self.budget = child.budget;
        result
    }
}

} // verus!
