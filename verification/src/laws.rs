//! Laws of the codec: what holds of every value, byte order and cursor.

use crate::endian::{
    bytes_units, le_value, lemma_le_bytes_len, lemma_signed_round_trip,
    lemma_unsigned_round_trip, radix_pow, units_bytes, unsigned_bytes, unsigned_value,
};
use crate::budget::alignment_pad;
use crate::decoders::decode_seq;
use crate::encoders::encode_seq;
use crate::reader::{eq_by_value, values_of, Cursor, Decoded, Model, Read, ReadWith};
use crate::result::Fault;
use crate::string::{
    laid_out, lemma_prefix_len_is, lemma_unit_ahead, lossy_utf16, lossy_utf8, units_ahead,
    lemma_unit_value, utf16_encoding, utf16_of_char, utf16_units, utf8_units, window, StringMode,
};
use crate::writer::{filled, Write};
use vstd::prelude::*;

verus! {

/// Whether the cursor `c` can transfer exactly the bytes `bytes` next.
pub open spec fn holds_next(c: Cursor, bytes: Seq<u8>) -> bool {
    c.transfer(bytes.len()) == Ok::<Seq<u8>, Fault>(bytes)
}

/// What decoding yields where it succeeds with `v` on `n` bytes.
pub open spec fn decoded_in<T>(c: Cursor, v: T, n: nat) -> Decoded<T> {
    Decoded { result: Ok(v), end: c.pos + n }
}

/// Round trip of `u8`: the byte that encodes a value decodes to it.
pub proof fn law_round_trip_u8(v: u8, big: bool, c: Cursor)
    requires
        holds_next(c, v.encode(big).bytes),
    ensures
        v.encode(big).ok,
        v.encode(big).bytes.len() == 1,
        <u8 as Read>::decode(c, big) == decoded_in(c, v, 1),
{
}

/// Round trip of `i8`: the byte that encodes a value decodes to it.
pub proof fn law_round_trip_i8(v: i8, big: bool, c: Cursor)
    requires
        holds_next(c, v.encode(big).bytes),
    ensures
        v.encode(big).ok,
        v.encode(big).bytes.len() == 1,
        <i8 as Read>::decode(c, big) == decoded_in(c, v, 1),
{
    reveal_with_fuel(radix_pow, 2);
    lemma_signed_round_trip(v as int, 1, big);
}

/// Round trip of `u16`: in either byte order, the bytes that encode a value
/// decode to it.
pub proof fn law_round_trip_u16(v: u16, big: bool, c: Cursor)
    requires
        holds_next(c, v.encode(big).bytes),
    ensures
        v.encode(big).ok,
        v.encode(big).bytes.len() == 2,
        <u16 as Read>::decode(c, big) == decoded_in(c, v, 2),
{
    reveal_with_fuel(radix_pow, 3);
    lemma_unsigned_round_trip(v as nat, 2, big);
}

/// Round trip of `i16`: in either byte order, the bytes that encode a value
/// decode to it.
pub proof fn law_round_trip_i16(v: i16, big: bool, c: Cursor)
    requires
        holds_next(c, v.encode(big).bytes),
    ensures
        v.encode(big).ok,
        v.encode(big).bytes.len() == 2,
        <i16 as Read>::decode(c, big) == decoded_in(c, v, 2),
{
    reveal_with_fuel(radix_pow, 3);
    lemma_signed_round_trip(v as int, 2, big);
}

/// Round trip of `u32`: in either byte order, the bytes that encode a value
/// decode to it.
pub proof fn law_round_trip_u32(v: u32, big: bool, c: Cursor)
    requires
        holds_next(c, v.encode(big).bytes),
    ensures
        v.encode(big).ok,
        v.encode(big).bytes.len() == 4,
        <u32 as Read>::decode(c, big) == decoded_in(c, v, 4),
{
    reveal_with_fuel(radix_pow, 5);
    lemma_unsigned_round_trip(v as nat, 4, big);
}

/// Round trip of `i32`: in either byte order, the bytes that encode a value
/// decode to it.
pub proof fn law_round_trip_i32(v: i32, big: bool, c: Cursor)
    requires
        holds_next(c, v.encode(big).bytes),
    ensures
        v.encode(big).ok,
        v.encode(big).bytes.len() == 4,
        <i32 as Read>::decode(c, big) == decoded_in(c, v, 4),
{
    reveal_with_fuel(radix_pow, 5);
    lemma_signed_round_trip(v as int, 4, big);
}

/// Round trip of `u64`: in either byte order, the bytes that encode a value
/// decode to it.
pub proof fn law_round_trip_u64(v: u64, big: bool, c: Cursor)
    requires
        holds_next(c, v.encode(big).bytes),
    ensures
        v.encode(big).ok,
        v.encode(big).bytes.len() == 8,
        <u64 as Read>::decode(c, big) == decoded_in(c, v, 8),
{
    reveal_with_fuel(radix_pow, 9);
    lemma_unsigned_round_trip(v as nat, 8, big);
}

/// Round trip of `i64`: in either byte order, the bytes that encode a value
/// decode to it.
pub proof fn law_round_trip_i64(v: i64, big: bool, c: Cursor)
    requires
        holds_next(c, v.encode(big).bytes),
    ensures
        v.encode(big).ok,
        v.encode(big).bytes.len() == 8,
        <i64 as Read>::decode(c, big) == decoded_in(c, v, 8),
{
    reveal_with_fuel(radix_pow, 9);
    lemma_signed_round_trip(v as int, 8, big);
}

/// Round trip of `bool`: the byte that encodes a value decodes to it.
pub proof fn law_round_trip_bool(v: bool, big: bool, c: Cursor)
    requires
        holds_next(c, v.encode(big).bytes),
    ensures
        v.encode(big).ok,
        v.encode(big).bytes.len() == 1,
        <bool as Read>::decode(c, big) == decoded_in(c, v, 1),
{
}

/// Round trip of `char`: in either byte order, the bytes that encode a
/// character decode to it.
pub proof fn law_round_trip_char(v: char, big: bool, c: Cursor)
    requires
        holds_next(c, v.encode(big).bytes),
    ensures
        v.encode(big).ok,
        v.encode(big).bytes.len() == 4,
        <char as Read>::decode(c, big) == decoded_in(c, v, 4),
{
    reveal_with_fuel(radix_pow, 5);
    let code = v as u32;
    lemma_unsigned_round_trip(code as nat, 4, big);
    vstd::utf8::char_is_scalar(v);
    vstd::utf8::char_u32_cast(v, code);
}

/// Budget enforcement: from a cursor over exactly `supply.len()` bytes, of
/// which `consumed` are consumed, a transfer of `n` bytes succeeds exactly
/// if `n` bytes are left, hands out the next `n` bytes and advances the
/// cursor by `n`; one byte more fails as `NotEnoughBytes`, with what was
/// asked for and what is left, and leaves the cursor where it was.
pub proof fn law_budget_enforced(supply: Seq<u8>, consumed: nat, n: nat)
    requires
        consumed <= supply.len(),
    ensures
        ({
            let c = Cursor::bounded(supply).at(consumed);
            if consumed + n <= supply.len() {
                &&& c.transfer(n) == Ok::<Seq<u8>, Fault>(
                    c.bytes_at(consumed, n),
                )
                &&& c.after(n) == c.at(consumed + n)
            } else {
                &&& c.transfer(n) == Err::<Seq<u8>, Fault>(
                    Fault::NotEnoughBytes {
                        expected: n,
                        remaining: (supply.len() - consumed) as nat,
                    },
                )
                &&& c.after(n) == c
            }
        }),
{
}

/// A transfer never takes a cursor past its ceiling, never moves it
/// backwards, and changes neither the supply nor the ceiling.
pub proof fn law_transfer_keeps_budget(c: Cursor, n: nat)
    ensures
        c.after(n).supply == c.supply,
        c.after(n).ceiling == c.ceiling,
        c.pos <= c.after(n).pos,
        c.within_budget() ==> c.after(n).within_budget(),
        c.pos <= c.supply.len() ==> c.after(n).pos <= c.supply.len(),
{
}

/// A scope of `len` bytes shows exactly `len` bytes of budget: within it a
/// transfer of `n` bytes is allowed exactly if `n <= len`, whatever the
/// ceiling outside.
pub proof fn law_scope_budget(c: Cursor, len: nat, n: nat)
    ensures
        c.scoped(len).within_budget(),
        c.scoped(len).remaining() == len,
        c.scoped(len).allows(n) <==> n <= len,
        c.scoped(len).with_ceiling(c.ceiling) == c,
{
}

/// Alignment: the padding to the next multiple of `align` is less than
/// `align`, reaches a multiple of `align`, and is zero exactly where the
/// position already is one.
pub proof fn law_alignment(pos: nat, align: nat)
    requires
        align > 0,
    ensures
        alignment_pad(pos, align) < align,
        (pos + alignment_pad(pos, align)) % align == 0,
        alignment_pad(pos, align) == 0 <==> pos % align == 0,
{
    let offset = pos % align;
    vstd::arithmetic::div_mod::lemma_fundamental_div_mod(pos as int, align as int);
    if offset == 0 {
        vstd::arithmetic::div_mod::lemma_mod_self_0(align as int);
    } else {
        vstd::arithmetic::div_mod::lemma_small_mod((align - offset) as nat, align);
        let q = pos as int / align as int;
        assert(pos + (align - offset) == (q + 1) * align) by (nonlinear_arith)
            requires
                pos == align * q + offset,
        ;
        vstd::arithmetic::div_mod::lemma_mod_multiples_basic(q + 1, align as int);
    }
}

/// Two fields one after the other, whatever the byte order in which each
/// is read: the second starts where the first ended, and behind both the
/// cursor has advanced by the sum of their sizes, no byte counted twice and
/// none lost.
pub proof fn law_fields_accumulate<A, B>(
    c: Cursor,
    n1: nat,
    first: spec_fn(Seq<u8>) -> A,
    n2: nat,
    second: spec_fn(Seq<u8>) -> B,
)
    requires
        c.transfer(n1 + n2) is Ok,
    ensures
        ({
            let d1 = c.fixed(n1, first);
            let d2 = c.at(d1.end).fixed(n2, second);
            &&& d1 == decoded_in(c, first(c.bytes_at(c.pos, n1)), n1)
            &&& d2.result == Ok::<B, Fault>(
                second(c.bytes_at(c.pos + n1, n2)),
            )
            &&& d2.end == c.pos + n1 + n2
        }),
{
}

/// The endian override on two 16-bit fields: the first read in one byte
/// order and the second in the other see the first two and the next two
/// bytes, and leave the cursor four bytes on.
pub proof fn law_override_accumulates(c: Cursor, big: bool)
    requires
        c.transfer(4) is Ok,
    ensures
        ({
            let d1 = <u16 as Read>::decode(c, !big);
            let d2 = <u16 as Read>::decode(c.at(d1.end), big);
            &&& d1.result == Ok::<u16, Fault>(
                unsigned_value(c.bytes_at(c.pos, 2), !big) as u16,
            )
            &&& d1.end == c.pos + 2
            &&& d2.result == Ok::<u16, Fault>(
                unsigned_value(c.bytes_at(c.pos + 2, 2), big) as u16,
            )
            &&& d2.end == c.pos + 4
        }),
{
}

/// On the integer types and on `bool`, `==` holds exactly of equal values,
/// so that a check of a decoded value against an expected one succeeds
/// exactly where the two are the same.
pub proof fn law_numbers_compare_by_value()
    ensures
        eq_by_value::<u8>(),
        eq_by_value::<i8>(),
        eq_by_value::<u16>(),
        eq_by_value::<i16>(),
        eq_by_value::<u32>(),
        eq_by_value::<i32>(),
        eq_by_value::<u64>(),
        eq_by_value::<i64>(),
        eq_by_value::<bool>(),
{
}

/// What a layout writes: a fixed slot is filled exactly, whatever the
/// string; a terminated string is followed by exactly one zero unit.
pub proof fn law_layout_length(bytes: Seq<u8>, unit: nat, mode: StringMode)
    ensures
        match (mode, laid_out(bytes, unit, mode)) {
            (StringMode::FixedChars(size), Some(out)) => {
                &&& out.len() == size * unit
                &&& out.take(bytes.len() as int) == bytes
                &&& forall|i: int| bytes.len() <= i < out.len() ==> out[i] == 0u8
            },
            (StringMode::FixedChars(size), None) => bytes.len() > size * unit,
            (StringMode::NullTerminated, Some(out)) => {
                &&& out.len() == bytes.len() + unit
                &&& out.take(bytes.len() as int) == bytes
                &&& forall|i: int| bytes.len() <= i < out.len() ==> out[i] == 0u8
            },
            (StringMode::NullTerminated, None) => false,
        },
{
    match laid_out(bytes, unit, mode) {
        Some(out) => {
            assert(out.take(bytes.len() as int) =~= bytes);
        },
        None => {},
    }
}

/// Whether no byte of `bytes` is zero.
pub open spec fn zero_free(bytes: Seq<u8>) -> bool {
    forall|i: int| 0 <= i < bytes.len() ==> bytes[i] != 0u8
}

/// Round trip of a terminated string of 8-bit units: where the cursor can
/// transfer the units and the terminator that were written, reading gives
/// the units back without the terminator and leaves the cursor behind it.
pub proof fn law_terminated_round_trip(c: Cursor, units: Seq<u8>)
    requires
        zero_free(units),
        laid_out(units, 1, StringMode::NullTerminated) matches Some(out) && holds_next(c, out),
    ensures
        utf8_units(c, StringMode::NullTerminated) == decoded_in(c, units, units.len() + 1),
{
    let w = window(c, 1);
    let len = units.len();
    lemma_unit_ahead(c, 1, len);
    assert forall|k: int| 0 <= k < len implies w[k] != 0u8 by {
        assert(w[k] == units[k]);
    }
    lemma_prefix_len_is(w, 0u8, len as int);
    assert(w.take(len as int) =~= units);
}

/// Round trip of a string of 8-bit units in a fixed slot: the units fit
/// the slot exactly if there are no more of them than the slot has places;
/// then, where the cursor can transfer the slot as it was written, reading
/// gives the units back without the padding and leaves the cursor behind
/// the slot.
pub proof fn law_fixed_round_trip(c: Cursor, units: Seq<u8>, size: usize)
    requires
        zero_free(units),
        laid_out(units, 1, StringMode::FixedChars(size)) matches Some(out) ==> holds_next(c, out),
    ensures
        laid_out(units, 1, StringMode::FixedChars(size)) is Some <==> units.len() <= size,
        units.len() <= size ==> utf8_units(c, StringMode::FixedChars(size)) == decoded_in(
            c,
            units,
            size as nat,
        ),
{
    if units.len() <= size {
        let len = units.len();
        let out = units + filled(0, (size - len) as nat);
        assert forall|k: int| 0 <= k < len implies out[k] != 0u8 by {
        }
        lemma_prefix_len_is(out, 0u8, len as int);
        assert(out.take(len as int) =~= units);
    }
}

/// Whether every value of `T` comes back from its own encoding: where a
/// value encodes without failure and the cursor can transfer exactly the
/// bytes of the encoding next, decoding yields the value and leaves the
/// cursor behind those bytes. This holds in both byte orders.
pub open spec fn round_trips<T: Read + Write>() -> bool {
    forall|v: T, big: bool, c: Cursor|
        v.encode(big).ok && #[trigger] holds_next(c, v.encode(big).bytes) ==> T::decode(c, big)
            == decoded_in(c, v.value(), v.encode(big).bytes.len())
}

/// Every primitive type comes back from its own encoding.
pub proof fn law_primitives_round_trip()
    ensures
        round_trips::<u8>(),
        round_trips::<i8>(),
        round_trips::<u16>(),
        round_trips::<i16>(),
        round_trips::<u32>(),
        round_trips::<i32>(),
        round_trips::<u64>(),
        round_trips::<i64>(),
        round_trips::<bool>(),
        round_trips::<char>(),
{
    assert forall|v: u8, big: bool, c: Cursor| #[trigger]
        holds_next(c, v.encode(big).bytes) implies <u8 as Read>::decode(c, big) == decoded_in(
        c,
        v.value(),
        v.encode(big).bytes.len(),
    ) by {
        law_round_trip_u8(v, big, c);
    }
    assert forall|v: i8, big: bool, c: Cursor| #[trigger]
        holds_next(c, v.encode(big).bytes) implies <i8 as Read>::decode(c, big) == decoded_in(
        c,
        v.value(),
        v.encode(big).bytes.len(),
    ) by {
        law_round_trip_i8(v, big, c);
    }
    assert forall|v: u16, big: bool, c: Cursor| #[trigger]
        holds_next(c, v.encode(big).bytes) implies <u16 as Read>::decode(c, big) == decoded_in(
        c,
        v.value(),
        v.encode(big).bytes.len(),
    ) by {
        law_round_trip_u16(v, big, c);
    }
    assert forall|v: i16, big: bool, c: Cursor| #[trigger]
        holds_next(c, v.encode(big).bytes) implies <i16 as Read>::decode(c, big) == decoded_in(
        c,
        v.value(),
        v.encode(big).bytes.len(),
    ) by {
        law_round_trip_i16(v, big, c);
    }
    assert forall|v: u32, big: bool, c: Cursor| #[trigger]
        holds_next(c, v.encode(big).bytes) implies <u32 as Read>::decode(c, big) == decoded_in(
        c,
        v.value(),
        v.encode(big).bytes.len(),
    ) by {
        law_round_trip_u32(v, big, c);
    }
    assert forall|v: i32, big: bool, c: Cursor| #[trigger]
        holds_next(c, v.encode(big).bytes) implies <i32 as Read>::decode(c, big) == decoded_in(
        c,
        v.value(),
        v.encode(big).bytes.len(),
    ) by {
        law_round_trip_i32(v, big, c);
    }
    assert forall|v: u64, big: bool, c: Cursor| #[trigger]
        holds_next(c, v.encode(big).bytes) implies <u64 as Read>::decode(c, big) == decoded_in(
        c,
        v.value(),
        v.encode(big).bytes.len(),
    ) by {
        law_round_trip_u64(v, big, c);
    }
    assert forall|v: i64, big: bool, c: Cursor| #[trigger]
        holds_next(c, v.encode(big).bytes) implies <i64 as Read>::decode(c, big) == decoded_in(
        c,
        v.value(),
        v.encode(big).bytes.len(),
    ) by {
        law_round_trip_i64(v, big, c);
    }
    assert forall|v: bool, big: bool, c: Cursor| #[trigger]
        holds_next(c, v.encode(big).bytes) implies <bool as Read>::decode(c, big) == decoded_in(
        c,
        v.value(),
        v.encode(big).bytes.len(),
    ) by {
        law_round_trip_bool(v, big, c);
    }
    assert forall|v: char, big: bool, c: Cursor| #[trigger]
        holds_next(c, v.encode(big).bytes) implies <char as Read>::decode(c, big) == decoded_in(
        c,
        v.value(),
        v.encode(big).bytes.len(),
    ) by {
        law_round_trip_char(v, big, c);
    }
}

/// A cursor that can transfer two runs of bytes in one go can transfer the
/// first, and from behind it the second.
pub proof fn lemma_holds_split(c: Cursor, first: Seq<u8>, second: Seq<u8>)
    requires
        holds_next(c, first + second),
    ensures
        holds_next(c, first),
        holds_next(c.at(c.pos + first.len()), second),
{
    let all = first + second;
    assert(c.bytes_at(c.pos, first.len()) =~= all.take(first.len() as int));
    assert(all.take(first.len() as int) =~= first);
    assert(c.bytes_at(c.pos + first.len(), second.len()) =~= all.skip(first.len() as int));
    assert(all.skip(first.len() as int) =~= second);
}

/// Pairs come back from their own encoding where both parts do.
pub proof fn law_round_trip_pair<A: Read + Write, B: Read + Write>()
    requires
        round_trips::<A>(),
        round_trips::<B>(),
    ensures
        round_trips::<(A, B)>(),
{
    assert forall|v: (A, B), big: bool, c: Cursor|
        v.encode(big).ok && #[trigger] holds_next(c, v.encode(big).bytes) implies <(
        A,
        B,
    ) as Read>::decode(c, big) == decoded_in(c, v.value(), v.encode(big).bytes.len()) by {
        let first = v.0.encode(big);
        let second = v.1.encode(big);
        lemma_holds_split(c, first.bytes, second.bytes);
        assert(holds_next(c, v.0.encode(big).bytes));
        assert(holds_next(c.at(c.pos + first.bytes.len()), v.1.encode(big).bytes));
    }
}

/// Tuples of 3 come back from their own encoding where all their parts do.
pub proof fn law_round_trip_triple<T1: Read + Write, T2: Read + Write, T3: Read + Write>()
    requires
        round_trips::<T1>(),
        round_trips::<T2>(),
        round_trips::<T3>(),
    ensures
        round_trips::<(T1, T2, T3)>(),
{
    law_round_trip_pair::<T1, T2>();
    assert forall|v: (T1, T2, T3), big: bool, c: Cursor|
        v.encode(big).ok && #[trigger] holds_next(c, v.encode(big).bytes) implies <(T1, T2, T3) as Read>::decode(
        c,
        big,
    ) == decoded_in(c, v.value(), v.encode(big).bytes.len()) by {
        let front: (T1, T2) = (v.0, v.1);
        let first = front.encode(big);
        let second = v.2.encode(big);
        lemma_holds_split(c, first.bytes, second.bytes);
        assert(holds_next(c, front.encode(big).bytes));
        assert(holds_next(c.at(c.pos + first.bytes.len()), v.2.encode(big).bytes));
    }
}

/// Tuples of 4 come back from their own encoding where all their parts do.
pub proof fn law_round_trip_quadruple<T1: Read + Write, T2: Read + Write, T3: Read + Write, T4: Read + Write>()
    requires
        round_trips::<T1>(),
        round_trips::<T2>(),
        round_trips::<T3>(),
        round_trips::<T4>(),
    ensures
        round_trips::<(T1, T2, T3, T4)>(),
{
    law_round_trip_triple::<T1, T2, T3>();
    assert forall|v: (T1, T2, T3, T4), big: bool, c: Cursor|
        v.encode(big).ok && #[trigger] holds_next(c, v.encode(big).bytes) implies <(T1, T2, T3, T4) as Read>::decode(
        c,
        big,
    ) == decoded_in(c, v.value(), v.encode(big).bytes.len()) by {
        let front: (T1, T2, T3) = (v.0, v.1, v.2);
        let first = front.encode(big);
        let second = v.3.encode(big);
        lemma_holds_split(c, first.bytes, second.bytes);
        assert(holds_next(c, front.encode(big).bytes));
        assert(holds_next(c.at(c.pos + first.bytes.len()), v.3.encode(big).bytes));
    }
}

/// Tuples of 5 come back from their own encoding where all their parts do.
pub proof fn law_round_trip_quintuple<T1: Read + Write, T2: Read + Write, T3: Read + Write, T4: Read + Write, T5: Read + Write>()
    requires
        round_trips::<T1>(),
        round_trips::<T2>(),
        round_trips::<T3>(),
        round_trips::<T4>(),
        round_trips::<T5>(),
    ensures
        round_trips::<(T1, T2, T3, T4, T5)>(),
{
    law_round_trip_quadruple::<T1, T2, T3, T4>();
    assert forall|v: (T1, T2, T3, T4, T5), big: bool, c: Cursor|
        v.encode(big).ok && #[trigger] holds_next(c, v.encode(big).bytes) implies <(T1, T2, T3, T4, T5) as Read>::decode(
        c,
        big,
    ) == decoded_in(c, v.value(), v.encode(big).bytes.len()) by {
        let front: (T1, T2, T3, T4) = (v.0, v.1, v.2, v.3);
        let first = front.encode(big);
        let second = v.4.encode(big);
        lemma_holds_split(c, first.bytes, second.bytes);
        assert(holds_next(c, front.encode(big).bytes));
        assert(holds_next(c.at(c.pos + first.bytes.len()), v.4.encode(big).bytes));
    }
}

/// Tuples of 6 come back from their own encoding where all their parts do.
pub proof fn law_round_trip_sextuple<T1: Read + Write, T2: Read + Write, T3: Read + Write, T4: Read + Write, T5: Read + Write, T6: Read + Write>()
    requires
        round_trips::<T1>(),
        round_trips::<T2>(),
        round_trips::<T3>(),
        round_trips::<T4>(),
        round_trips::<T5>(),
        round_trips::<T6>(),
    ensures
        round_trips::<(T1, T2, T3, T4, T5, T6)>(),
{
    law_round_trip_quintuple::<T1, T2, T3, T4, T5>();
    assert forall|v: (T1, T2, T3, T4, T5, T6), big: bool, c: Cursor|
        v.encode(big).ok && #[trigger] holds_next(c, v.encode(big).bytes) implies <(T1, T2, T3, T4, T5, T6) as Read>::decode(
        c,
        big,
    ) == decoded_in(c, v.value(), v.encode(big).bytes.len()) by {
        let front: (T1, T2, T3, T4, T5) = (v.0, v.1, v.2, v.3, v.4);
        let first = front.encode(big);
        let second = v.5.encode(big);
        lemma_holds_split(c, first.bytes, second.bytes);
        assert(holds_next(c, front.encode(big).bytes));
        assert(holds_next(c.at(c.pos + first.bytes.len()), v.5.encode(big).bytes));
    }
}

/// A run of items comes back from its own encoding where single items do.
pub proof fn lemma_round_trip_seq<T: Read + Write>(items: Seq<T>, big: bool, c: Cursor)
    requires
        round_trips::<T>(),
        encode_seq(items, big).ok,
        holds_next(c, encode_seq(items, big).bytes),
    ensures
        decode_seq::<T>(c, big, items.len()) == decoded_in(
            c,
            values_of(items),
            encode_seq(items, big).bytes.len(),
        ),
    decreases items.len(),
{
    if items.len() == 0 {
        assert(values_of(items) =~= Seq::<T::Value>::empty());
    } else {
        let front = encode_seq(items.drop_last(), big);
        let back = items.last().encode(big);
        lemma_holds_split(c, front.bytes, back.bytes);
        lemma_round_trip_seq::<T>(items.drop_last(), big, c);
        assert(holds_next(c.at(c.pos + front.bytes.len()), items.last().encode(big).bytes));
        assert(values_of(items) =~= values_of(items.drop_last()).push(items.last().value()));
    }
}

/// Arrays come back from their own encoding where their items do.
pub proof fn law_round_trip_array<T: Read + Write, const N: usize>()
    requires
        round_trips::<T>(),
    ensures
        round_trips::<[T; N]>(),
{
    assert forall|v: [T; N], big: bool, c: Cursor|
        v.encode(big).ok && #[trigger] holds_next(c, v.encode(big).bytes) implies <[T; N] as Read>::decode(
        c,
        big,
    ) == decoded_in(c, v.value(), v.encode(big).bytes.len()) by {
        lemma_round_trip_seq::<T>(v@, big, c);
    }
}

/// Vectors come back from their own encoding, given their length, where
/// their items do.
pub proof fn law_round_trip_vec<T: Read + Write>(v: Vec<T>, big: bool, c: Cursor)
    requires
        round_trips::<T>(),
        v.encode(big).ok,
        holds_next(c, v.encode(big).bytes),
    ensures
        <Vec<T> as ReadWith<usize>>::decode_with(c, big, v.len()) == decoded_in(
            c,
            v.value(),
            v.encode(big).bytes.len(),
        ),
{
    lemma_round_trip_seq::<T>(v@, big, c);
}

/// Optional values come back from their own encoding, given whether they
/// are present, where the values they hold do.
pub proof fn law_round_trip_option<T: Read + Write>(v: Option<T>, big: bool, c: Cursor)
    requires
        round_trips::<T>(),
        v.encode(big).ok,
        holds_next(c, v.encode(big).bytes),
    ensures
        <Option<T> as ReadWith<bool>>::decode_with(c, big, v is Some) == decoded_in(
            c,
            v.value(),
            v.encode(big).bytes.len(),
        ),
{
    match v {
        Some(inner) => {
            assert(holds_next(c, inner.encode(big).bytes));
        },
        None => {},
    }
}

/// Round trip of text through UTF-8: the bytes of a text decode to the
/// text.
pub proof fn law_utf8_round_trip(text: Seq<char>)
    ensures
        lossy_utf8(vstd::utf8::encode_utf8(text)) == text,
{
    vstd::utf8::encode_utf8_valid_utf8(text);
    vstd::utf8::encode_utf8_decode_utf8(text);
}

/// The code units of one character, followed by more units, decode to the
/// character followed by what the other units decode to.
pub proof fn lemma_utf16_first_char(c: char, rest: Seq<u16>)
    ensures
        lossy_utf16(utf16_of_char(c) + rest) == seq![c] + lossy_utf16(rest),
{
    let code = c as u32;
    let units = utf16_of_char(c) + rest;
    vstd::utf8::char_is_scalar(c);
    if code < 0x10000 {
        vstd::utf8::char_u32_cast(c, code);
        assert(units.skip(1) =~= rest);
        assert(units[0] == code as u16);
    } else {
        let high = (0xD800 + (code - 0x10000) / 0x400) as u16;
        let low = (0xDC00 + (code - 0x10000) % 0x400) as u16;
        assert(units[0] == high && units[1] == low);
        assert(units.skip(2) =~= rest);
        assert(0x10000 + (high - 0xD800) * 0x400 + (low - 0xDC00) == code);
        vstd::utf8::char_u32_cast(c, code);
    }
}

/// Round trip of text through UTF-16: the code units of a text decode to
/// the text.
pub proof fn law_utf16_round_trip(text: Seq<char>)
    ensures
        lossy_utf16(utf16_encoding(text)) == text,
    decreases text.len(),
{
    if text.len() > 0 {
        law_utf16_round_trip(text.skip(1));
        lemma_utf16_first_char(text[0], utf16_encoding(text.skip(1)));
        assert(seq![text[0]] + text.skip(1) =~= text);
    }
}

/// The two bytes at the place of the `i`-th code unit are the bytes of that
/// unit.
pub proof fn lemma_unit_bytes(units: Seq<u16>, big: bool, i: int)
    requires
        0 <= i < units.len(),
    ensures
        units_bytes(units, big).subrange(2 * i, 2 * i + 2) == unsigned_bytes(
            units[i] as nat,
            2,
            big,
        ),
        unsigned_value(units_bytes(units, big).subrange(2 * i, 2 * i + 2), big) == units[i],
{
    reveal_with_fuel(radix_pow, 3);
    lemma_le_bytes_len(units[i] as nat, 2);
    lemma_unsigned_round_trip(units[i] as nat, 2, big);
    assert(units_bytes(units, big).subrange(2 * i, 2 * i + 2) =~= unsigned_bytes(
        units[i] as nat,
        2,
        big,
    ));
}

/// Round trip of code units through bytes: in either byte order, the bytes
/// of a sequence of 16-bit units hold those units.
pub proof fn law_units_round_trip(units: Seq<u16>, big: bool)
    ensures
        units_bytes(units, big).len() == 2 * units.len(),
        bytes_units(units_bytes(units, big), big) == units,
{
    let bytes = units_bytes(units, big);
    assert forall|i: int| 0 <= i < units.len() implies bytes_units(bytes, big)[i] == units[i] by {
        lemma_unit_bytes(units, big, i);
    }
    assert(bytes_units(bytes, big) =~= units);
}

/// Whether no unit of `units` is zero.
pub open spec fn zero_free_units(units: Seq<u16>) -> bool {
    forall|i: int| 0 <= i < units.len() ==> units[i] != 0u16
}

/// Round trip of a terminated string of 16-bit units: where the cursor can
/// transfer the units and the terminator that were written, reading in the
/// same byte order gives the units back without the terminator and leaves
/// the cursor behind it.
pub proof fn law_terminated_round_trip_wide(c: Cursor, units: Seq<u16>, big: bool)
    requires
        zero_free_units(units),
        laid_out(units_bytes(units, big), 2, StringMode::NullTerminated) matches Some(out)
            && holds_next(c, out),
    ensures
        utf16_units(c, StringMode::NullTerminated, big) == decoded_in(
            c,
            units,
            2 * units.len() + 2,
        ),
{
    let bytes = units_bytes(units, big);
    let out = bytes + filled(0, 2);
    let w = window(c, 2);
    let len = units.len();
    let all = bytes_units(w, big);
    lemma_unit_ahead(c, 2, len);
    assert(units_ahead(c, 2) > len);
    assert forall|k: int| 0 <= k < len implies all[k] == units[k] by {
        lemma_unit_value(w, big, k);
        lemma_unit_bytes(units, big, k);
        assert(w.subrange(2 * k, 2 * k + 2) =~= bytes.subrange(2 * k, 2 * k + 2));
    }
    assert(all[len as int] == 0u16) by {
        lemma_unit_value(w, big, len as int);
        let last = w.subrange(2 * (len as int), 2 * (len as int) + 2);
        assert(last =~= seq![0u8, 0u8]);
        assert(last.reverse() =~= seq![0u8, 0u8]);
        reveal_with_fuel(le_value, 3);
    }
    lemma_prefix_len_is(all, 0u16, len as int);
    assert(all.take(len as int) =~= units);
}

/// Round trip of a string of 16-bit units in a fixed slot: the units fit
/// the slot exactly if there are no more of them than the slot has places;
/// then, where the cursor can transfer the slot as it was written, reading
/// in the same byte order gives the units back without the padding and
/// leaves the cursor behind the slot.
pub proof fn law_fixed_round_trip_wide(c: Cursor, units: Seq<u16>, size: usize, big: bool)
    requires
        zero_free_units(units),
        laid_out(units_bytes(units, big), 2, StringMode::FixedChars(size)) matches Some(out)
            ==> holds_next(c, out),
    ensures
        laid_out(units_bytes(units, big), 2, StringMode::FixedChars(size)) is Some <==> units.len()
            <= size,
        units.len() <= size ==> utf16_units(c, StringMode::FixedChars(size), big) == decoded_in(
            c,
            units,
            2 * (size as nat),
        ),
{
    let bytes = units_bytes(units, big);
    let len = units.len();
    assert(size * 2 == 2 * size);
    if len <= size {
        let out = bytes + filled(0, (2 * size - 2 * len) as nat);
        let all = bytes_units(out, big);
        assert(all.len() == size);
        assert forall|k: int| 0 <= k < len implies all[k] == units[k] by {
            lemma_unit_value(out, big, k);
            lemma_unit_bytes(units, big, k);
            assert(out.subrange(2 * k, 2 * k + 2) =~= bytes.subrange(2 * k, 2 * k + 2));
        }
        if len < size {
            assert(all[len as int] == 0u16) by {
                lemma_unit_value(out, big, len as int);
                let pad = out.subrange(2 * (len as int), 2 * (len as int) + 2);
                assert(pad =~= seq![0u8, 0u8]);
                assert(pad.reverse() =~= seq![0u8, 0u8]);
                reveal_with_fuel(le_value, 3);
            }
        }
        lemma_prefix_len_is(all, 0u16, len as int);
        assert(all.take(len as int) =~= units);
    }
}

/// Whether no character of `text` is the character with code point zero.
pub open spec fn nul_free(text: Seq<char>) -> bool {
    forall|i: int| 0 <= i < text.len() ==> text[i] as u32 != 0
}

/// A text without the zero character has no zero among its UTF-16 code
/// units.
pub proof fn lemma_utf16_zero_free(text: Seq<char>)
    requires
        nul_free(text),
    ensures
        zero_free_units(utf16_encoding(text)),
    decreases text.len(),
{
    if text.len() > 0 {
        let rest = text.skip(1);
        assert forall|i: int| 0 <= i < rest.len() implies rest[i] as u32 != 0 by {
            assert(rest[i] == text[i + 1]);
        }
        lemma_utf16_zero_free(rest);
        let first = utf16_of_char(text[0]);
        let all = utf16_encoding(text);
        vstd::utf8::char_is_scalar(text[0]);
        assert forall|k: int| 0 <= k < all.len() implies all[k] != 0u16 by {
            if k < first.len() {
                assert(all[k] == first[k]);
            } else {
                assert(all[k] == utf16_encoding(rest)[k - first.len()]);
            }
        }
    }
}

/// Round trip of a terminated UTF-16 string: where the cursor can transfer
/// what writing a text without the zero character lays out, reading in the
/// same byte order yields code units whose text is the text written, and
/// leaves the cursor behind the terminator.
pub proof fn law_wide_string_round_trip(c: Cursor, text: Seq<char>, big: bool)
    requires
        nul_free(text),
        laid_out(
            units_bytes(utf16_encoding(text), big),
            2,
            StringMode::NullTerminated,
        ) matches Some(out) && holds_next(c, out),
    ensures
        utf16_units(c, StringMode::NullTerminated, big) == decoded_in(
            c,
            utf16_encoding(text),
            2 * utf16_encoding(text).len() + 2,
        ),
        lossy_utf16(utf16_encoding(text)) == text,
{
    lemma_utf16_zero_free(text);
    law_terminated_round_trip_wide(c, utf16_encoding(text), big);
    law_utf16_round_trip(text);
}

} // verus!
