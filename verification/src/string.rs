//! Strings on the wire: UTF-8 and UTF-16 code units, in a slot of fixed
//! size or up to a terminating zero unit.

use crate::endian::{
    bytes_units, lemma_le_value_bound, radix_pow, units_bytes, unsigned_value, Endian,
};
use crate::reader::{probed, produces, stopped, BinaryReader, Cursor, Decoded};
use crate::result::{fails_with, invalid_input, Fault, ReadError, WriteError};
use crate::writer::{filled, BinaryWriter};
use vstd::prelude::*;
use vstd::slice::slice_subrange;

verus! {

/// How a string is laid out.
#[derive(Clone, Copy, Debug)]
pub enum StringMode {
    /// In a slot of that many code units, padded with zero units.
    FixedChars(usize),
    /// Up to a zero unit, which ends it.
    NullTerminated,
}

/// How many items of `s` come before the first that equals `stop`: all of
/// them where none does.
pub open spec fn prefix_len<T>(s: Seq<T>, stop: T) -> nat
    decreases s.len(),
{
    if s.len() == 0 || s[0] == stop {
        0
    } else {
        1 + prefix_len(s.drop_first(), stop)
    }
}

/// The items of `s` that come before the first that equals `stop`.
pub open spec fn before_stop<T>(s: Seq<T>, stop: T) -> Seq<T> {
    s.take(prefix_len(s, stop) as int)
}

/// `prefix_len` is the one position before which nothing equals `stop` and
/// at which the sequence ends or holds `stop`.
pub proof fn lemma_prefix_len_is<T>(s: Seq<T>, stop: T, n: int)
    requires
        0 <= n <= s.len(),
        forall|k: int| 0 <= k < n ==> s[k] != stop,
        n == s.len() || s[n] == stop,
    ensures
        prefix_len(s, stop) == n,
    decreases s.len(),
{
    if n > 0 {
        let rest = s.drop_first();
        assert forall|k: int| 0 <= k < n - 1 implies rest[k] != stop by {
            assert(rest[k] == s[k + 1]);
        }
        lemma_prefix_len_is(rest, stop, n - 1);
    }
}

/// What `String::from_utf8_lossy` makes of a byte sequence that is not
/// well-formed UTF-8: its text, with each malformed part replaced by the
/// replacement character `U+FFFD`.
pub uninterp spec fn replaced_utf8(bytes: Seq<u8>) -> Seq<char>;

/// The text of a byte sequence, tolerant of malformed input: the text that
/// the bytes encode where they are well-formed UTF-8, and else that text
/// with each malformed part replaced.
pub open spec fn lossy_utf8(bytes: Seq<u8>) -> Seq<char> {
    if vstd::utf8::valid_utf8(bytes) {
        vstd::utf8::decode_utf8(bytes)
    } else {
        replaced_utf8(bytes)
    }
}

/// The UTF-16 code units of one character: the code point itself below
/// `0x10000`, else a high and a low surrogate that share its bits.
pub open spec fn utf16_of_char(c: char) -> Seq<u16> {
    let code = c as u32;
    if code < 0x10000 {
        seq![code as u16]
    } else {
        seq![
            (0xD800 + (code - 0x10000) / 0x400) as u16,
            (0xDC00 + (code - 0x10000) % 0x400) as u16,
        ]
    }
}

/// The UTF-16 code units of a text: those of its characters, in order.
pub open spec fn utf16_encoding(text: Seq<char>) -> Seq<u16>
    decreases text.len(),
{
    if text.len() == 0 {
        Seq::<u16>::empty()
    } else {
        utf16_of_char(text[0]) + utf16_encoding(text.skip(1))
    }
}

/// Whether a code unit is a surrogate.
pub open spec fn is_surrogate(unit: u16) -> bool {
    0xD800 <= unit <= 0xDFFF
}

/// Whether two code units are a high surrogate followed by a low one.
pub open spec fn is_surrogate_pair(high: u16, low: u16) -> bool {
    0xD800 <= high <= 0xDBFF && 0xDC00 <= low <= 0xDFFF
}

/// The text of a sequence of UTF-16 code units, tolerant of malformed
/// input: a unit that is no surrogate is the character with that code
/// point; a surrogate pair is the character whose bits it shares; any other
/// surrogate is replaced by the replacement character `U+FFFD`.
pub open spec fn lossy_utf16(units: Seq<u16>) -> Seq<char>
    decreases units.len(),
{
    if units.len() == 0 {
        Seq::<char>::empty()
    } else if !is_surrogate(units[0]) {
        seq![units[0] as char] + lossy_utf16(units.skip(1))
    } else if units.len() >= 2 && is_surrogate_pair(units[0], units[1]) {
        seq![(0x10000 + (units[0] - 0xD800) * 0x400 + (units[1] - 0xDC00)) as char] + lossy_utf16(
            units.skip(2),
        )
    } else {
        seq![0xFFFDu32 as char] + lossy_utf16(units.skip(1))
    }
}

/// `String::from_utf8_lossy`, made an owned string: for well-formed UTF-8
/// the text that the bytes encode, and else that text with replacements.
#[verifier::external_body]
pub(crate) fn decode_utf8_lossy(bytes: &[u8]) -> (s: String)
    ensures
        vstd::utf8::valid_utf8(bytes@) ==> s@ == vstd::utf8::decode_utf8(bytes@),
        !vstd::utf8::valid_utf8(bytes@) ==> s@ == replaced_utf8(bytes@),
{
    String::from_utf8_lossy(bytes).into_owned()
}

/// `String::from_utf16_lossy`: the text of `units`, with each surrogate
/// that is not part of a pair replaced by `U+FFFD`.
#[verifier::external_body]
pub(crate) fn decode_utf16_lossy(units: &[u16]) -> (s: String)
    ensures
        s@ == lossy_utf16(units@),
{
    String::from_utf16_lossy(units)
}

/// `str::encode_utf16`, collected: the UTF-16 code units of the characters
/// of `value`, in order.
#[verifier::external_body]
pub(crate) fn encode_utf16_units(value: &str) -> (units: Vec<u16>)
    ensures
        units@ == utf16_encoding(value@),
{
    value.encode_utf16().collect()
}

/// The bytes of `data` that come before its first zero byte.
pub fn bytes_before_zero(data: &[u8]) -> (r: &[u8])
    ensures
        r@ == before_stop(data@, 0u8),
{
    let mut len: usize = 0;
    while len < data.len() && data[len] != 0
        invariant
            len <= data@.len(),
            forall|k: int| 0 <= k < len ==> data@[k] != 0u8,
        decreases data@.len() - len,
    {
        len = len + 1;
    }
    proof {
        lemma_prefix_len_is(data@, 0u8, len as int);
    }
    slice_subrange(data, 0, len)
}

/// The units of `data` that come before its first zero unit.
pub fn units_before_zero(data: &[u16]) -> (r: &[u16])
    ensures
        r@ == before_stop(data@, 0u16),
{
    let mut len: usize = 0;
    while len < data.len() && data[len] != 0
        invariant
            len <= data@.len(),
            forall|k: int| 0 <= k < len ==> data@[k] != 0u16,
        decreases data@.len() - len,
    {
        len = len + 1;
    }
    proof {
        lemma_prefix_len_is(data@, 0u16, len as int);
    }
    slice_subrange(data, 0, len)
}

/// The text of a fixed slot of UTF-8: what comes before the first zero
/// byte, with malformed parts replaced.
pub fn parse_fixed_utf8(data: &[u8]) -> (s: String)
    ensures
        s@ == lossy_utf8(before_stop(data@, 0u8)),
{
    decode_utf8_lossy(bytes_before_zero(data))
}

/// The text of a fixed slot of UTF-16 in the byte order `E`: what comes
/// before the first zero unit, with unpaired surrogates replaced.
pub fn parse_fixed_utf16<E: Endian>(data: &[u8]) -> (s: String)
    requires
        data@.len() % 2 == 0,
    ensures
        s@ == lossy_utf16(before_stop(bytes_units(data@, E::big()), 0u16)),
{
    let units = E::u16vec_from_bytes(data);
    decode_utf16_lossy(units_before_zero(units.as_slice()))
}

/// The probe of terminated UTF-8: a byte, unless it is the terminator.
pub fn take_utf8_char(data: &[u8; 1]) -> (r: Option<u8>)
    ensures
        r == (if data@[0] == 0 {
            None
        } else {
            Some(data@[0])
        }),
{
    let c = data[0];
    if c == 0 {
        None
    } else {
        Some(c)
    }
}

/// The probe of terminated UTF-16 in the byte order `E`: a unit, unless it
/// is the terminator.
pub fn take_u16_char<E: Endian>(data: &[u8; 2]) -> (r: Option<u16>)
    ensures
        r == (if unsigned_value(data@, E::big()) == 0 {
            None
        } else {
            Some(unsigned_value(data@, E::big()) as u16)
        }),
{
    let c = E::u16_from_bytes(data);
    if c == 0 {
        None
    } else {
        Some(c)
    }
}

/// How many whole units of `n` bytes can be transferred from the cursor `c`.
pub open spec fn units_ahead(c: Cursor, n: nat) -> nat
    recommends
        n > 0,
{
    ((c.reach() - c.pos) / (n as int)) as nat
}

/// The bytes of the whole units of `n` bytes that can be transferred from
/// the cursor `c`.
pub open spec fn window(c: Cursor, n: nat) -> Seq<u8> {
    c.supply.subrange(c.pos as int, (c.pos + n * units_ahead(c, n)) as int)
}

/// Reading units of `n` bytes from the cursor `c` up to a terminator, where
/// `units` are the units that can be transferred: the units before the
/// first `zero`, with the cursor left behind the terminator; or, where no
/// unit is `zero`, the failure to transfer one more, with the cursor left
/// behind the last unit.
pub open spec fn terminated<U>(c: Cursor, n: nat, units: Seq<U>, zero: U) -> Decoded<Seq<U>> {
    let run = before_stop(units, zero);
    if run.len() < units.len() {
        Decoded { result: Ok(run), end: c.pos + n * (run.len() + 1) }
    } else {
        let end = c.pos + n * units.len();
        Decoded { result: Err(c.at(end).refusal(n)), end }
    }
}

/// Reading the code units of a string of 8-bit units in the given layout.
pub open spec fn utf8_units(c: Cursor, mode: StringMode) -> Decoded<Seq<u8>> {
    match mode {
        StringMode::FixedChars(count) => c.fixed(
            count as nat,
            |bytes: Seq<u8>| before_stop(bytes, 0u8),
        ),
        StringMode::NullTerminated => terminated(c, 1, window(c, 1), 0u8),
    }
}

/// Reading the code units of a string of 16-bit units in the given layout
/// and byte order.
pub open spec fn utf16_units(c: Cursor, mode: StringMode, big: bool) -> Decoded<Seq<u16>> {
    match mode {
        StringMode::FixedChars(count) => c.fixed(
            2 * (count as nat),
            |bytes: Seq<u8>| before_stop(bytes_units(bytes, big), 0u16),
        ),
        StringMode::NullTerminated => terminated(c, 2, bytes_units(window(c, 2), big), 0u16),
    }
}

/// The `i`-th unit of `n` bytes after the cursor can be transferred exactly
/// if it lies among the units ahead, and then holds the bytes at its place
/// in the window.
pub proof fn lemma_unit_ahead(c: Cursor, n: nat, i: nat)
    requires
        n == 1 || n == 2,
        c.pos <= c.supply.len(),
    ensures
        i < units_ahead(c, n) ==> c.at(c.pos + i * n).transfer(n) == Ok::<Seq<u8>, Fault>(
            window(c, n).subrange((n * i) as int, (n * i + n) as int),
        ),
        i >= units_ahead(c, n) ==> c.at(c.pos + i * n).transfer(n) is Err,
        window(c, n).len() == n * units_ahead(c, n),
{
    let m = units_ahead(c, n);
    let x = c.reach() - c.pos;
    if n == 1 {
        assert(x / (n as int) == x && i * n == i && n * i == i && n * m == m) by (nonlinear_arith)
            requires
                n == 1,
                m == (x / (n as int)) as nat,
                x >= 0,
        ;
    } else {
        assert(2 * (x / (n as int)) <= x < 2 * (x / (n as int)) + 2 && i * n == 2 * i && n * i == 2
            * i && n * m == 2 * m) by (nonlinear_arith)
            requires
                n == 2,
                m == (x / (n as int)) as nat,
                x >= 0,
        ;
    }
    if i < m {
        let p = c.pos + i * n;
        assert(c.supply.subrange(p as int, (p + n) as int) =~= window(c, n).subrange(
            (n * i) as int,
            (n * i + n) as int,
        ));
    }
}

impl<'a, E: Endian> BinaryReader<'a, E> {
    /// Reads a string of 8-bit code units and decodes it as UTF-8, with
    /// malformed parts replaced rather than refused. In a fixed slot the
    /// text ends at the first zero byte, if there is one; the whole slot is
    /// consumed. A terminated string is read byte by byte and its
    /// terminator is consumed.
    pub fn utf8_str(&mut self, mode: StringMode) -> (r: Result<String, ReadError>)
        ensures
            final(self)@ == old(self)@.at(utf8_units(old(self)@, mode).end),
            match utf8_units(old(self)@, mode).result {
                Ok(units) => r matches Ok(text) && text@ == lossy_utf8(units),
                Err(fault) => fails_with(r, fault),
            },
    {
        match mode {
            StringMode::FixedChars(num_chars) => {
                let parse = |data: &[u8]| -> (r: Result<String, ReadError>)
                    ensures
                        r matches Ok(text) && text@ == lossy_utf8(before_stop(data@, 0u8)),
                    { Ok(parse_fixed_utf8(data)) };
                self.read_from_slice(num_chars, parse)
            },
            StringMode::NullTerminated => {
                let ghost c = self@;
                proof {
                    use_type_invariant(&*self);
                }
                let buf = match self.read_while(take_utf8_char) {
                    Ok(buf) => buf,
                    Err(e) => {
                        proof {
                            let units = window(c, 1);
                            let m = units_ahead(c, 1);
                            let k = choose|k: nat| #[trigger]
                                stopped(c, take_utf8_char, k, self@.pos, e@);
                            lemma_unit_ahead(c, 1, k);
                            lemma_unit_ahead(c, 1, m);
                            if k > m {
                                assert(produces(c, take_utf8_char, m));
                            }
                            assert forall|i: int| 0 <= i < k implies units[i] != 0u8 by {
                                assert(produces(c, take_utf8_char, i as nat));
                                lemma_unit_ahead(c, 1, i as nat);
                            }
                            lemma_prefix_len_is(units, 0u8, k as int);
                        }
                        return Err(e);
                    },
                };
                proof {
                    let units = window(c, 1);
                    let len = buf@.len();
                    lemma_unit_ahead(c, 1, len);
                    assert forall|i: int| 0 <= i < len implies units[i] != 0u8 && units[i]
                        == buf@[i] by {
                        assert(probed(c, take_utf8_char, i as nat, Some(buf@[i])));
                        lemma_unit_ahead(c, 1, i as nat);
                    }
                    lemma_prefix_len_is(units, 0u8, len as int);
                    assert(before_stop(units, 0u8) =~= buf@);
                }
                Ok(decode_utf8_lossy(buf.as_slice()))
            },
        }
    }
}

/// The `i`-th 16-bit unit held in `bytes` is the number that its two bytes
/// represent.
pub proof fn lemma_unit_value(bytes: Seq<u8>, big: bool, i: int)
    requires
        0 <= i,
        2 * i + 2 <= bytes.len(),
    ensures
        bytes_units(bytes, big)[i] as nat == unsigned_value(
            bytes.subrange(2 * i, 2 * i + 2),
            big,
        ),
{
    let chunk = bytes.subrange(2 * i, 2 * i + 2);
    lemma_le_value_bound(chunk);
    lemma_le_value_bound(chunk.reverse());
    reveal_with_fuel(radix_pow, 3);
}

impl<'a, E: Endian> BinaryReader<'a, E> {
    /// Reads a string of 16-bit code units in this cursor's byte order and
    /// decodes it as UTF-16, with unpaired surrogates replaced rather than
    /// refused. In a fixed slot of `count` units the text ends at the first
    /// zero unit, if there is one; the whole slot is consumed. A terminated
    /// string is read unit by unit and its terminator is consumed.
    pub fn utf16_str(&mut self, mode: StringMode) -> (r: Result<String, ReadError>)
        requires
            mode matches StringMode::FixedChars(count) ==> 2 * count <= usize::MAX,
        ensures
            final(self)@ == old(self)@.at(utf16_units(old(self)@, mode, E::big()).end),
            match utf16_units(old(self)@, mode, E::big()).result {
                Ok(units) => r matches Ok(text) && text@ == lossy_utf16(units),
                Err(fault) => fails_with(r, fault),
            },
    {
        match mode {
            StringMode::FixedChars(num_chars) => {
                let parse = |data: &[u8]| -> (r: Result<String, ReadError>)
                    requires
                        data@.len() % 2 == 0,
                    ensures
                        r matches Ok(text) && text@ == lossy_utf16(
                            before_stop(bytes_units(data@, E::big()), 0u16),
                        ),
                    { Ok(parse_fixed_utf16::<E>(data)) };
                self.read_from_slice(2 * num_chars, parse)
            },
            StringMode::NullTerminated => {
                let ghost c = self@;
                let ghost big = E::big();
                proof {
                    use_type_invariant(&*self);
                }
                let probe = |data: &[u8; 2]| -> (r: Option<u16>)
                    ensures
                        r == (if unsigned_value(data@, E::big()) == 0 {
                            None
                        } else {
                            Some(unsigned_value(data@, E::big()) as u16)
                        }),
                    { take_u16_char::<E>(data) };
                let ghost units = bytes_units(window(c, 2), big);
                let buf = match self.read_while(probe) {
                    Ok(buf) => buf,
                    Err(e) => {
                        proof {
                            let m = units_ahead(c, 2);
                            let k = choose|k: nat| #[trigger] stopped(c, probe, k, self@.pos, e@);
                            lemma_unit_ahead(c, 2, k);
                            lemma_unit_ahead(c, 2, m);
                            if k > m {
                                assert(produces(c, probe, m));
                            }
                            assert forall|i: int| 0 <= i < k implies units[i] != 0u16 by {
                                assert(produces(c, probe, i as nat));
                                lemma_unit_ahead(c, 2, i as nat);
                                lemma_unit_value(window(c, 2), big, i);
                            }
                            lemma_prefix_len_is(units, 0u16, k as int);
                        }
                        return Err(e);
                    },
                };
                proof {
                    let len = buf@.len();
                    lemma_unit_ahead(c, 2, len);
                    lemma_unit_value(window(c, 2), big, len as int);
                    assert forall|i: int| 0 <= i < len implies units[i] != 0u16 && units[i]
                        == buf@[i] by {
                        assert(probed(c, probe, i as nat, Some(buf@[i])));
                        lemma_unit_ahead(c, 2, i as nat);
                        lemma_unit_value(window(c, 2), big, i);
                    }
                    lemma_prefix_len_is(units, 0u16, len as int);
                    assert(before_stop(units, 0u16) =~= buf@);
                }
                Ok(decode_utf16_lossy(buf.as_slice()))
            },
        }
    }
}

/// Writing `bytes`, which hold code units of `unit` bytes each, in the given
/// layout: in a fixed slot the bytes and then zero bytes up to the slot's
/// size, or nothing at all where the bytes do not fit; terminated, the
/// bytes and then one zero unit.
pub open spec fn laid_out(bytes: Seq<u8>, unit: nat, mode: StringMode) -> Option<Seq<u8>> {
    match mode {
        StringMode::FixedChars(size) => if bytes.len() > size * unit {
            None
        } else {
            Some(bytes + filled(0, (size * unit - bytes.len()) as nat))
        },
        StringMode::NullTerminated => Some(bytes + filled(0, unit)),
    }
}

impl<E: Endian> BinaryWriter<E> {
    /// Writes code units of 8 bits in the given layout. A string that does
    /// not fit its slot is refused and nothing is written.
    pub fn utf8_units(&mut self, bytes: &[u8], mode: StringMode) -> (r: Result<(), WriteError>)
        ensures
            match laid_out(bytes@, 1, mode) {
                Some(out) => r is Ok && final(self)@ == old(self)@ + out,
                None => r is Err && final(self)@ == old(self)@,
            },
    {
        match mode {
            StringMode::FixedChars(size) => {
                if bytes.len() > size {
                    return Err(
                        WriteError::io_error(invalid_input("String is too long for fixed size")),
                    );
                }
                let padding = size - bytes.len();
                let _ = self.bytes(bytes);
                let r = self.reserved(0, padding);
                assert(self@ =~= old(self)@ + (bytes@ + filled(0, padding as nat)));
                r
            },
            StringMode::NullTerminated => {
                let _ = self.bytes(bytes);
                let r = self.reserved(0, 1);
                assert(self@ =~= old(self)@ + (bytes@ + filled(0, 1)));
                r
            },
        }
    }

    /// Writes code units of 16 bits in this cursor's byte order and in the
    /// given layout. A string that does not fit its slot is refused and
    /// nothing is written.
    pub fn utf16_units(&mut self, units: &[u16], mode: StringMode) -> (r: Result<(), WriteError>)
        ensures
            match laid_out(units_bytes(units@, E::big()), 2, mode) {
                Some(out) => r is Ok && final(self)@ == old(self)@ + out,
                None => r is Err && final(self)@ == old(self)@,
            },
    {
        let bytes = E::u16iter_to_bytes(units, units.len());
        match mode {
            StringMode::FixedChars(size) => {
                if units.len() > size {
                    return Err(
                        WriteError::io_error(invalid_input("String is too long for fixed size")),
                    );
                }
                let padding = size - units.len();
                let _ = self.bytes(bytes.as_slice());
                let _ = self.reserved(0, padding);
                let r = self.reserved(0, padding);
                assert(self@ =~= old(self)@ + (bytes@ + filled(0, (2 * padding) as nat)));
                r
            },
            StringMode::NullTerminated => {
                let _ = self.bytes(bytes.as_slice());
                let r = self.reserved(0, 2);
                assert(self@ =~= old(self)@ + (bytes@ + filled(0, 2)));
                r
            },
        }
    }

    /// Writes a string as UTF-8 in the given layout. A string whose UTF-8
    /// form is longer than its fixed slot is refused and nothing is written.
    pub fn utf8_str(&mut self, value: &str, mode: StringMode) -> (r: Result<(), WriteError>)
        ensures
            match laid_out(vstd::utf8::encode_utf8(value@), 1, mode) {
                Some(out) => r is Ok && final(self)@ == old(self)@ + out,
                None => r is Err && final(self)@ == old(self)@,
            },
    {
        self.utf8_units(value.as_bytes(), mode)
    }

    /// Writes a string as UTF-16 in this cursor's byte order and in the
    /// given layout. A string with more code units than its fixed slot is
    /// refused and nothing is written.
    pub fn utf16_str(&mut self, value: &str, mode: StringMode) -> (r: Result<(), WriteError>)
        ensures
            match laid_out(units_bytes(utf16_encoding(value@), E::big()), 2, mode) {
                Some(out) => r is Ok && final(self)@ == old(self)@ + out,
                None => r is Err && final(self)@ == old(self)@,
            },
    {
        let units = encode_utf16_units(value);
        self.utf16_units(units.as_slice(), mode)
    }
}

} // verus!
