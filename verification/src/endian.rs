//! Byte-order strategies: conversions between fixed-width integers and their
//! byte representations, least-significant-byte-first or most-significant-byte-first.

use vstd::prelude::*;

verus! {

/// `256` raised to the power `n`: the number of values that `n` bytes can hold.
pub open spec fn radix_pow(n: nat) -> nat
    decreases n,
{
    if n == 0 {
        1
    } else {
        256 * radix_pow((n - 1) as nat)
    }
}

/// The `n` base-256 digits of `v`, least significant first.
pub open spec fn le_bytes(v: nat, n: nat) -> Seq<u8>
    decreases n,
{
    if n == 0 {
        Seq::<u8>::empty()
    } else {
        seq![(v % 256) as u8] + le_bytes(v / 256, (n - 1) as nat)
    }
}

/// The number whose base-256 digits, least significant first, are `bytes`.
pub open spec fn le_value(bytes: Seq<u8>) -> nat
    decreases bytes.len(),
{
    if bytes.len() == 0 {
        0
    } else {
        bytes[0] as nat + 256 * le_value(bytes.drop_first())
    }
}

/// The `n`-byte representation of the unsigned number `v` in the given order.
pub open spec fn unsigned_bytes(v: nat, n: nat, big: bool) -> Seq<u8> {
    if big {
        le_bytes(v, n).reverse()
    } else {
        le_bytes(v, n)
    }
}

/// The unsigned number that `bytes` represent in the given order.
pub open spec fn unsigned_value(bytes: Seq<u8>, big: bool) -> nat {
    if big {
        le_value(bytes.reverse())
    } else {
        le_value(bytes)
    }
}

/// The unsigned number that stands for `v` in `n`-byte two's complement.
pub open spec fn twos_complement(v: int, n: nat) -> nat {
    if v < 0 {
        (v + radix_pow(n)) as nat
    } else {
        v as nat
    }
}

/// The signed number for which `u` stands in `n`-byte two's complement.
pub open spec fn from_twos_complement(u: nat, n: nat) -> int {
    if 2 * u >= radix_pow(n) {
        u - radix_pow(n)
    } else {
        u as int
    }
}

/// The `n`-byte two's complement representation of `v` in the given order.
pub open spec fn signed_bytes(v: int, n: nat, big: bool) -> Seq<u8> {
    unsigned_bytes(twos_complement(v, n), n, big)
}

/// The signed number that `bytes` represent in two's complement in the given order.
pub open spec fn signed_value(bytes: Seq<u8>, big: bool) -> int {
    from_twos_complement(unsigned_value(bytes, big), bytes.len())
}

/// `le_bytes(v, n)` has exactly `n` bytes.
pub proof fn lemma_le_bytes_len(v: nat, n: nat)
    ensures
        le_bytes(v, n).len() == n,
    decreases n,
{
    if n > 0 {
        lemma_le_bytes_len(v / 256, (n - 1) as nat);
    }
}

/// The value of a byte sequence is below `256` to the power of its length.
pub proof fn lemma_le_value_bound(bytes: Seq<u8>)
    ensures
        le_value(bytes) < radix_pow(bytes.len()),
    decreases bytes.len(),
{
    if bytes.len() > 0 {
        lemma_le_value_bound(bytes.drop_first());
    }
}

/// Encoding a number that fits in `n` bytes and reading the bytes back gives the number.
pub proof fn lemma_le_value_of_bytes(v: nat, n: nat)
    requires
        v < radix_pow(n),
    ensures
        le_value(le_bytes(v, n)) == v,
    decreases n,
{
    if n > 0 {
        let rest = le_bytes(v / 256, (n - 1) as nat);
        let all = le_bytes(v, n);
        lemma_le_value_of_bytes(v / 256, (n - 1) as nat);
        lemma_le_bytes_len(v / 256, (n - 1) as nat);
        assert(all.drop_first() =~= rest);
    }
}

/// Reading bytes as a number and encoding it in as many bytes gives the bytes back.
pub proof fn lemma_le_bytes_of_value(bytes: Seq<u8>)
    ensures
        le_bytes(le_value(bytes), bytes.len()) == bytes,
    decreases bytes.len(),
{
    if bytes.len() > 0 {
        let rest = bytes.drop_first();
        lemma_le_bytes_of_value(rest);
        let v = le_value(bytes);
        assert(v % 256 == bytes[0] as nat);
        assert(le_bytes(v, bytes.len()) =~= bytes);
    } else {
        assert(le_bytes(le_value(bytes), bytes.len()) =~= bytes);
    }
}

/// Reversing a byte sequence twice gives it back.
proof fn lemma_reverse_twice(bytes: Seq<u8>)
    ensures
        bytes.reverse().reverse() == bytes,
        bytes.reverse().len() == bytes.len(),
{
    assert(bytes.reverse().reverse() =~= bytes);
}

/// Round trip of unsigned numbers: in either byte order, the `n` bytes of a
/// number that fits in `n` bytes decode to that number.
pub proof fn lemma_unsigned_round_trip(v: nat, n: nat, big: bool)
    requires
        v < radix_pow(n),
    ensures
        unsigned_bytes(v, n, big).len() == n,
        unsigned_value(unsigned_bytes(v, n, big), big) == v,
{
    lemma_le_bytes_len(v, n);
    lemma_le_value_of_bytes(v, n);
    lemma_reverse_twice(le_bytes(v, n));
}

/// The conversions are bijective: in either byte order, the number that a
/// byte sequence decodes to encodes, in as many bytes, to that sequence.
pub proof fn law_unsigned_bytes_of_value(bytes: Seq<u8>, big: bool)
    ensures
        unsigned_value(bytes, big) < radix_pow(bytes.len()),
        unsigned_bytes(unsigned_value(bytes, big), bytes.len(), big) == bytes,
{
    lemma_reverse_twice(bytes);
    if big {
        lemma_le_value_bound(bytes.reverse());
        lemma_le_bytes_of_value(bytes.reverse());
    } else {
        lemma_le_value_bound(bytes);
        lemma_le_bytes_of_value(bytes);
    }
}

/// Whether `v` fits in `n`-byte two's complement.
pub open spec fn fits_signed(v: int, n: nat) -> bool {
    -(radix_pow(n) as int) <= 2 * v < radix_pow(n)
}

/// Round trip of signed numbers: in either byte order, the `n` bytes of a
/// number that fits in `n`-byte two's complement decode to that number.
pub proof fn lemma_signed_round_trip(v: int, n: nat, big: bool)
    requires
        fits_signed(v, n),
    ensures
        signed_bytes(v, n, big).len() == n,
        signed_value(signed_bytes(v, n, big), big) == v,
{
    lemma_unsigned_round_trip(twos_complement(v, n), n, big);
}

/// In either byte order, the signed number that a byte sequence decodes to
/// fits in as many bytes and encodes to that sequence.
pub proof fn law_signed_bytes_of_value(bytes: Seq<u8>, big: bool)
    ensures
        fits_signed(signed_value(bytes, big), bytes.len()),
        signed_bytes(signed_value(bytes, big), bytes.len(), big) == bytes,
{
    law_unsigned_bytes_of_value(bytes, big);
}

/// The little-endian bytes of a 16-bit number.
fn le_bytes_16(value: u16) -> (r: [u8; 2])
    ensures
        r@ == le_bytes(value as nat, 2),
{
    let b0 = (value % 256) as u8;
    let b1 = (value / 256) as u8;
    let r = [b0, b1];
    proof {
        reveal_with_fuel(le_bytes, 3);
        assert(r@ =~= le_bytes(value as nat, 2));
    }
    r
}

/// The little-endian bytes of a 32-bit number.
fn le_bytes_32(value: u32) -> (r: [u8; 4])
    ensures
        r@ == le_bytes(value as nat, 4),
{
    let b0 = (value % 256) as u8;
    let v1 = value / 256;
    let b1 = (v1 % 256) as u8;
    let v2 = v1 / 256;
    let b2 = (v2 % 256) as u8;
    let b3 = (v2 / 256) as u8;
    let r = [b0, b1, b2, b3];
    proof {
        reveal_with_fuel(le_bytes, 5);
        assert(r@ =~= le_bytes(value as nat, 4));
    }
    r
}

/// The little-endian bytes of a 64-bit number.
fn le_bytes_64(value: u64) -> (r: [u8; 8])
    ensures
        r@ == le_bytes(value as nat, 8),
{
    let b0 = (value % 256) as u8;
    let v1 = value / 256;
    let b1 = (v1 % 256) as u8;
    let v2 = v1 / 256;
    let b2 = (v2 % 256) as u8;
    let v3 = v2 / 256;
    let b3 = (v3 % 256) as u8;
    let v4 = v3 / 256;
    let b4 = (v4 % 256) as u8;
    let v5 = v4 / 256;
    let b5 = (v5 % 256) as u8;
    let v6 = v5 / 256;
    let b6 = (v6 % 256) as u8;
    let b7 = (v6 / 256) as u8;
    let r = [b0, b1, b2, b3, b4, b5, b6, b7];
    proof {
        reveal_with_fuel(le_bytes, 9);
        assert(r@ =~= le_bytes(value as nat, 8));
    }
    r
}

/// The 16-bit number whose little-endian bytes are given.
fn le_value_16(bytes: &[u8; 2]) -> (r: u16)
    ensures
        r as nat == le_value(bytes@),
{
    proof {
        reveal_with_fuel(le_value, 3);
    }
    bytes[0] as u16 + 256 * (bytes[1] as u16)
}

/// The 32-bit number whose little-endian bytes are given.
fn le_value_32(bytes: &[u8; 4]) -> (r: u32)
    ensures
        r as nat == le_value(bytes@),
{
    proof {
        reveal_with_fuel(le_value, 5);
    }
    let hi: u32 = bytes[2] as u32 + 256 * (bytes[3] as u32);
    let mid: u32 = bytes[1] as u32 + 256 * hi;
    bytes[0] as u32 + 256 * mid
}

/// The 64-bit number whose little-endian bytes are given.
fn le_value_64(bytes: &[u8; 8]) -> (r: u64)
    ensures
        r as nat == le_value(bytes@),
{
    proof {
        reveal_with_fuel(le_value, 9);
    }
    let v6: u64 = bytes[6] as u64 + 256 * (bytes[7] as u64);
    let v5: u64 = bytes[5] as u64 + 256 * v6;
    let v4: u64 = bytes[4] as u64 + 256 * v5;
    let v3: u64 = bytes[3] as u64 + 256 * v4;
    let v2: u64 = bytes[2] as u64 + 256 * v3;
    let v1: u64 = bytes[1] as u64 + 256 * v2;
    bytes[0] as u64 + 256 * v1
}

/// The bytes of a 2-byte array in the opposite order.
fn reversed_2(b: &[u8; 2]) -> (r: [u8; 2])
    ensures
        r@ == b@.reverse(),
{
    let r = [b[1], b[0]];
    r
}

/// The bytes of a 4-byte array in the opposite order.
fn reversed_4(b: &[u8; 4]) -> (r: [u8; 4])
    ensures
        r@ == b@.reverse(),
{
    let r = [b[3], b[2], b[1], b[0]];
    r
}

/// The bytes of an 8-byte array in the opposite order.
fn reversed_8(b: &[u8; 8]) -> (r: [u8; 8])
    ensures
        r@ == b@.reverse(),
{
    let r = [b[7], b[6], b[5], b[4], b[3], b[2], b[1], b[0]];
    r
}

/// The two bytes of a 16-bit number in the given order.
pub fn encode_16(value: u16, big: bool) -> (r: [u8; 2])
    ensures
        r@ == unsigned_bytes(value as nat, 2, big),
{
    let le = le_bytes_16(value);
    if big {
        reversed_2(&le)
    } else {
        le
    }
}

/// The four bytes of a 32-bit number in the given order.
pub fn encode_32(value: u32, big: bool) -> (r: [u8; 4])
    ensures
        r@ == unsigned_bytes(value as nat, 4, big),
{
    let le = le_bytes_32(value);
    if big {
        reversed_4(&le)
    } else {
        le
    }
}

/// The eight bytes of a 64-bit number in the given order.
pub fn encode_64(value: u64, big: bool) -> (r: [u8; 8])
    ensures
        r@ == unsigned_bytes(value as nat, 8, big),
{
    let le = le_bytes_64(value);
    if big {
        reversed_8(&le)
    } else {
        le
    }
}

/// The 16-bit number that two bytes represent in the given order.
pub fn decode_16(bytes: &[u8; 2], big: bool) -> (r: u16)
    ensures
        r as nat == unsigned_value(bytes@, big),
{
    if big {
        let le = reversed_2(bytes);
        le_value_16(&le)
    } else {
        le_value_16(bytes)
    }
}

/// The 32-bit number that four bytes represent in the given order.
pub fn decode_32(bytes: &[u8; 4], big: bool) -> (r: u32)
    ensures
        r as nat == unsigned_value(bytes@, big),
{
    if big {
        let le = reversed_4(bytes);
        le_value_32(&le)
    } else {
        le_value_32(bytes)
    }
}

/// The 64-bit number that eight bytes represent in the given order.
pub fn decode_64(bytes: &[u8; 8], big: bool) -> (r: u64)
    ensures
        r as nat == unsigned_value(bytes@, big),
{
    if big {
        let le = reversed_8(bytes);
        le_value_64(&le)
    } else {
        le_value_64(bytes)
    }
}

/// The byte that stands for a signed 8-bit number in two's complement.
pub fn unsigned_of_i8(value: i8) -> (r: u8)
    ensures
        r as nat == twos_complement(value as int, 1),
{
    proof {
        reveal_with_fuel(radix_pow, 2);
    }
    if value < 0 {
        (value as i16 + 256) as u8
    } else {
        value as u8
    }
}

/// The unsigned number that stands for a signed 16-bit number in two's complement.
pub fn unsigned_of_i16(value: i16) -> (r: u16)
    ensures
        r as nat == twos_complement(value as int, 2),
{
    proof {
        reveal_with_fuel(radix_pow, 3);
    }
    if value < 0 {
        (value as i32 + 65536) as u16
    } else {
        value as u16
    }
}

/// The unsigned number that stands for a signed 32-bit number in two's complement.
pub fn unsigned_of_i32(value: i32) -> (r: u32)
    ensures
        r as nat == twos_complement(value as int, 4),
{
    proof {
        reveal_with_fuel(radix_pow, 5);
    }
    if value < 0 {
        (value as i64 + 4294967296) as u32
    } else {
        value as u32
    }
}

/// The unsigned number that stands for a signed 64-bit number in two's complement.
pub fn unsigned_of_i64(value: i64) -> (r: u64)
    ensures
        r as nat == twos_complement(value as int, 8),
{
    proof {
        reveal_with_fuel(radix_pow, 9);
    }
    if value < 0 {
        (value as i128 + 18446744073709551616) as u64
    } else {
        value as u64
    }
}

/// The signed 8-bit number for which a byte stands in two's complement.
pub fn signed_of_u8(value: u8) -> (r: i8)
    ensures
        r as int == from_twos_complement(value as nat, 1),
{
    proof {
        reveal_with_fuel(radix_pow, 2);
    }
    if value >= 128 {
        (value as i16 - 256) as i8
    } else {
        value as i8
    }
}

/// The signed 16-bit number for which an unsigned one stands in two's complement.
pub fn signed_of_u16(value: u16) -> (r: i16)
    ensures
        r as int == from_twos_complement(value as nat, 2),
{
    proof {
        reveal_with_fuel(radix_pow, 3);
    }
    if value >= 32768 {
        (value as i32 - 65536) as i16
    } else {
        value as i16
    }
}

/// The signed 32-bit number for which an unsigned one stands in two's complement.
pub fn signed_of_u32(value: u32) -> (r: i32)
    ensures
        r as int == from_twos_complement(value as nat, 4),
{
    proof {
        reveal_with_fuel(radix_pow, 5);
    }
    if value >= 2147483648 {
        (value as i64 - 4294967296) as i32
    } else {
        value as i32
    }
}

/// The signed 64-bit number for which an unsigned one stands in two's complement.
pub fn signed_of_u64(value: u64) -> (r: i64)
    ensures
        r as int == from_twos_complement(value as nat, 8),
{
    proof {
        reveal_with_fuel(radix_pow, 9);
    }
    if value >= 9223372036854775808 {
        (value as i128 - 18446744073709551616) as i64
    } else {
        value as i64
    }
}

/// The bytes of a sequence of 16-bit code units, each unit in the given order.
pub open spec fn units_bytes(units: Seq<u16>, big: bool) -> Seq<u8> {
    Seq::new(2 * units.len(), |i: int| unsigned_bytes(units[i / 2] as nat, 2, big)[i % 2])
}

/// The 16-bit code units that an even number of bytes holds, each unit in the given order.
pub open spec fn bytes_units(bytes: Seq<u8>, big: bool) -> Seq<u16> {
    Seq::new(bytes.len() / 2, |i: int| unsigned_value(bytes.subrange(2 * i, 2 * i + 2), big) as u16)
}

/// A byte order: how multi-byte numbers are laid out.
pub trait Endian {
    /// Whether the most significant byte comes first.
    spec fn big() -> bool;

    /// Whether the most significant byte comes first.
    fn is_big() -> (r: bool)
        ensures
            r == Self::big(),
    ;

    /// The two bytes of an unsigned 16-bit number in this order.
    fn u16_to_bytes(value: u16) -> (r: [u8; 2])
        ensures
            r@ == unsigned_bytes(value as nat, 2, Self::big()),
    {
        encode_16(value, Self::is_big())
    }

    /// The two bytes of a signed 16-bit number in this order.
    fn i16_to_bytes(value: i16) -> (r: [u8; 2])
        ensures
            r@ == signed_bytes(value as int, 2, Self::big()),
    {
        encode_16(unsigned_of_i16(value), Self::is_big())
    }

    /// The four bytes of an unsigned 32-bit number in this order.
    fn u32_to_bytes(value: u32) -> (r: [u8; 4])
        ensures
            r@ == unsigned_bytes(value as nat, 4, Self::big()),
    {
        encode_32(value, Self::is_big())
    }

    /// The four bytes of a signed 32-bit number in this order.
    fn i32_to_bytes(value: i32) -> (r: [u8; 4])
        ensures
            r@ == signed_bytes(value as int, 4, Self::big()),
    {
        encode_32(unsigned_of_i32(value), Self::is_big())
    }

    /// The eight bytes of an unsigned 64-bit number in this order.
    fn u64_to_bytes(value: u64) -> (r: [u8; 8])
        ensures
            r@ == unsigned_bytes(value as nat, 8, Self::big()),
    {
        encode_64(value, Self::is_big())
    }

    /// The eight bytes of a signed 64-bit number in this order.
    fn i64_to_bytes(value: i64) -> (r: [u8; 8])
        ensures
            r@ == signed_bytes(value as int, 8, Self::big()),
    {
        encode_64(unsigned_of_i64(value), Self::is_big())
    }

    /// The bytes of a sequence of 16-bit code units. `capacity` is a hint for
    /// the allocation and does not change the result.
    fn u16iter_to_bytes(units: &[u16], capacity: usize) -> (r: Vec<u8>)
        ensures
            r@ == units_bytes(units@, Self::big()),
    {
        let mut result: Vec<u8> = Vec::new();
        let mut i: usize = 0;
        while i < units.len()
            invariant
                i <= units@.len(),
                result@ == units_bytes(units@.take(i as int), Self::big()),
            decreases units@.len() - i,
        {
            let pair = Self::u16_to_bytes(units[i]);
            result.push(pair[0]);
            result.push(pair[1]);
            proof {
                lemma_le_bytes_len(units@[i as int] as nat, 2);
                assert(result@ =~= units_bytes(units@.take(i + 1), Self::big()));
            }
            i = i + 1;
        }
        assert(units@.take(i as int) =~= units@);
        result
    }

    /// The unsigned 16-bit number that two bytes represent in this order.
    fn u16_from_bytes(bytes: &[u8; 2]) -> (r: u16)
        ensures
            r as nat == unsigned_value(bytes@, Self::big()),
    {
        decode_16(bytes, Self::is_big())
    }

    /// The signed 16-bit number that two bytes represent in this order.
    fn i16_from_bytes(bytes: &[u8; 2]) -> (r: i16)
        ensures
            r as int == signed_value(bytes@, Self::big()),
    {
        signed_of_u16(decode_16(bytes, Self::is_big()))
    }

    /// The unsigned 32-bit number that four bytes represent in this order.
    fn u32_from_bytes(bytes: &[u8; 4]) -> (r: u32)
        ensures
            r as nat == unsigned_value(bytes@, Self::big()),
    {
        decode_32(bytes, Self::is_big())
    }

    /// The signed 32-bit number that four bytes represent in this order.
    fn i32_from_bytes(bytes: &[u8; 4]) -> (r: i32)
        ensures
            r as int == signed_value(bytes@, Self::big()),
    {
        signed_of_u32(decode_32(bytes, Self::is_big()))
    }

    /// The unsigned 64-bit number that eight bytes represent in this order.
    fn u64_from_bytes(bytes: &[u8; 8]) -> (r: u64)
        ensures
            r as nat == unsigned_value(bytes@, Self::big()),
    {
        decode_64(bytes, Self::is_big())
    }

    /// The signed 64-bit number that eight bytes represent in this order.
    fn i64_from_bytes(bytes: &[u8; 8]) -> (r: i64)
        ensures
            r as int == signed_value(bytes@, Self::big()),
    {
        signed_of_u64(decode_64(bytes, Self::is_big()))
    }

    /// The 16-bit code units held in an even number of bytes.
    fn u16vec_from_bytes(bytes: &[u8]) -> (r: Vec<u16>)
        requires
            bytes@.len() % 2 == 0,
        ensures
            r@ == bytes_units(bytes@, Self::big()),
    {
        let mut result: Vec<u16> = Vec::new();
        let count = bytes.len() / 2;
        let mut i: usize = 0;
        while i < count
            invariant
                count == bytes@.len() / 2,
                bytes@.len() % 2 == 0,
                i <= count,
                result@ == bytes_units(bytes@, Self::big()).take(i as int),
            decreases count - i,
        {
            let pair = [bytes[2 * i], bytes[2 * i + 1]];
            assert(pair@ =~= bytes@.subrange(2 * i, 2 * i + 2));
            let unit = Self::u16_from_bytes(&pair);
            result.push(unit);
            assert(result@ =~= bytes_units(bytes@, Self::big()).take(i + 1));
            i = i + 1;
        }
        assert(result@ =~= bytes_units(bytes@, Self::big()));
        result
    }
}

/// Least significant byte first.
pub struct LittleEndian;

/// Most significant byte first.
pub struct BigEndian;

impl Endian for LittleEndian {
    open spec fn big() -> bool {
        false
    }

    fn is_big() -> (r: bool) {
        false
    }
}

impl Endian for BigEndian {
    open spec fn big() -> bool {
        true
    }

    fn is_big() -> (r: bool) {
        true
    }
}

} // verus!
