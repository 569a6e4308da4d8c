use rwbin::budget::Budget;
use rwbin::decoders::{bool_from_byte, char_from_code};
use rwbin::endian::{BigEndian, Endian, LittleEndian};
use rwbin::reader::{check_reserved, check_value, BinaryReader, Model, ReadWith};
use rwbin::result::{ReadError, WriteError};
use rwbin::string::{
    bytes_before_zero, parse_fixed_utf16, take_u16_char, take_utf8_char, units_before_zero,
    StringMode,
};
use rwbin::text::{push_decimal, push_hex};
use rwbin::writer::{BinaryWriter, Write, WriteWith};

fn le_bytes_of(write: impl Fn(&mut BinaryWriter<LittleEndian>)) -> Vec<u8> {
    let mut writer = BinaryWriter::new_le(Vec::new());
    write(&mut writer);
    writer.into_inner()
}

fn be_bytes_of(write: impl Fn(&mut BinaryWriter<BigEndian>)) -> Vec<u8> {
    let mut writer = BinaryWriter::new_be(Vec::new());
    write(&mut writer);
    writer.into_inner()
}

#[test]
fn round_trip_unsigned_boundaries() {
    for v in [0u8, 1, 0x7F, 0x80, u8::MAX] {
        let le = le_bytes_of(|w| w.u8(v).unwrap());
        let be = be_bytes_of(|w| w.u8(v).unwrap());
        assert_eq!(BinaryReader::from_le_bytes(&le).u8().unwrap(), v);
        assert_eq!(BinaryReader::from_be_bytes(&be).u8().unwrap(), v);
    }
    for v in [0u16, 1, 0x00FF, 0x0100, 0x8000, u16::MAX] {
        let le = le_bytes_of(|w| w.u16(v).unwrap());
        let be = be_bytes_of(|w| w.u16(v).unwrap());
        assert_eq!(le, v.to_le_bytes());
        assert_eq!(be, v.to_be_bytes());
        assert_eq!(BinaryReader::from_le_bytes(&le).u16().unwrap(), v);
        assert_eq!(BinaryReader::from_be_bytes(&be).u16().unwrap(), v);
    }
    for v in [0u32, 1, 0xDEADBEEF, 0x8000_0000, u32::MAX] {
        let le = le_bytes_of(|w| w.u32(v).unwrap());
        let be = be_bytes_of(|w| w.u32(v).unwrap());
        assert_eq!(le, v.to_le_bytes());
        assert_eq!(be, v.to_be_bytes());
        assert_eq!(BinaryReader::from_le_bytes(&le).u32().unwrap(), v);
        assert_eq!(BinaryReader::from_be_bytes(&be).u32().unwrap(), v);
    }
    for v in [0u64, 1, 0x0102_0304_0506_0708, 0x8000_0000_0000_0000, u64::MAX] {
        let le = le_bytes_of(|w| w.u64(v).unwrap());
        let be = be_bytes_of(|w| w.u64(v).unwrap());
        assert_eq!(le, v.to_le_bytes());
        assert_eq!(be, v.to_be_bytes());
        assert_eq!(BinaryReader::from_le_bytes(&le).u64().unwrap(), v);
        assert_eq!(BinaryReader::from_be_bytes(&be).u64().unwrap(), v);
    }
}

#[test]
fn round_trip_signed_boundaries() {
    for v in [0i8, -1, 1, i8::MIN, i8::MAX] {
        let le = le_bytes_of(|w| w.i8(v).unwrap());
        let be = be_bytes_of(|w| w.i8(v).unwrap());
        assert_eq!(le, v.to_le_bytes());
        assert_eq!(BinaryReader::from_le_bytes(&le).i8().unwrap(), v);
        assert_eq!(BinaryReader::from_be_bytes(&be).i8().unwrap(), v);
    }
    for v in [0i16, -1, 1, -42, i16::MIN, i16::MAX] {
        let le = le_bytes_of(|w| w.i16(v).unwrap());
        let be = be_bytes_of(|w| w.i16(v).unwrap());
        assert_eq!(le, v.to_le_bytes());
        assert_eq!(be, v.to_be_bytes());
        assert_eq!(BinaryReader::from_le_bytes(&le).i16().unwrap(), v);
        assert_eq!(BinaryReader::from_be_bytes(&be).i16().unwrap(), v);
    }
    for v in [0i32, -1, 1, i32::MIN, i32::MAX] {
        let le = le_bytes_of(|w| w.i32(v).unwrap());
        let be = be_bytes_of(|w| w.i32(v).unwrap());
        assert_eq!(le, v.to_le_bytes());
        assert_eq!(be, v.to_be_bytes());
        assert_eq!(BinaryReader::from_le_bytes(&le).i32().unwrap(), v);
        assert_eq!(BinaryReader::from_be_bytes(&be).i32().unwrap(), v);
    }
    for v in [0i64, -1, 1, i64::MIN, i64::MAX] {
        let le = le_bytes_of(|w| w.i64(v).unwrap());
        let be = be_bytes_of(|w| w.i64(v).unwrap());
        assert_eq!(le, v.to_le_bytes());
        assert_eq!(be, v.to_be_bytes());
        assert_eq!(BinaryReader::from_le_bytes(&le).i64().unwrap(), v);
        assert_eq!(BinaryReader::from_be_bytes(&be).i64().unwrap(), v);
    }
}

#[test]
fn round_trip_floats_through_their_bits() {
    for v in [0.0f32, 1.0, -1.0, 3.5, f32::MAX, f32::MIN] {
        let le = le_bytes_of(|w| w.u32(v.to_bits()).unwrap());
        let be = be_bytes_of(|w| w.u32(v.to_bits()).unwrap());
        assert_eq!(le, v.to_le_bytes());
        assert_eq!(be, v.to_be_bytes());
        assert_eq!(f32::from_bits(BinaryReader::from_le_bytes(&le).u32().unwrap()), v);
        assert_eq!(f32::from_bits(BinaryReader::from_be_bytes(&be).u32().unwrap()), v);
    }
    for v in [0.0f64, 1.0, -1.0, 3.5, f64::MAX, f64::MIN] {
        let le = le_bytes_of(|w| w.u64(v.to_bits()).unwrap());
        let be = be_bytes_of(|w| w.u64(v.to_bits()).unwrap());
        assert_eq!(le, v.to_le_bytes());
        assert_eq!(be, v.to_be_bytes());
        assert_eq!(f64::from_bits(BinaryReader::from_le_bytes(&le).u64().unwrap()), v);
        assert_eq!(f64::from_bits(BinaryReader::from_be_bytes(&be).u64().unwrap()), v);
    }
}

#[test]
fn round_trip_bool_and_char() {
    for v in [false, true] {
        let le = le_bytes_of(|w| w.write(&v).unwrap());
        assert_eq!(le, vec![v as u8]);
        assert_eq!(BinaryReader::from_le_bytes(&le).read::<bool>().unwrap(), v);
    }
    for v in ['\0', 'A', 'é', '\u{D7FF}', '\u{E000}', '😀', char::MAX] {
        let le = le_bytes_of(|w| w.write(&v).unwrap());
        let be = be_bytes_of(|w| w.write(&v).unwrap());
        assert_eq!(le, (v as u32).to_le_bytes());
        assert_eq!(be, (v as u32).to_be_bytes());
        assert_eq!(BinaryReader::from_le_bytes(&le).read::<char>().unwrap(), v);
        assert_eq!(BinaryReader::from_be_bytes(&be).read::<char>().unwrap(), v);
    }
}

#[test]
fn endian_conversions_match_the_machine() {
    assert_eq!(LittleEndian::u16_to_bytes(0x0102), [0x02, 0x01]);
    assert_eq!(BigEndian::u16_to_bytes(0x0102), [0x01, 0x02]);
    assert_eq!(LittleEndian::i16_to_bytes(-2), [0xFE, 0xFF]);
    assert_eq!(BigEndian::i32_to_bytes(-2), [0xFF, 0xFF, 0xFF, 0xFE]);
    assert_eq!(LittleEndian::u32_to_bytes(0x01020304), [4, 3, 2, 1]);
    assert_eq!(BigEndian::u64_to_bytes(0x0102030405060708), [1, 2, 3, 4, 5, 6, 7, 8]);
    assert_eq!(LittleEndian::i64_to_bytes(i64::MIN), [0, 0, 0, 0, 0, 0, 0, 0x80]);
    assert_eq!(LittleEndian::u16_from_bytes(&[0x02, 0x01]), 0x0102);
    assert_eq!(BigEndian::i16_from_bytes(&[0xFF, 0xFE]), -2);
    assert_eq!(BigEndian::u32_from_bytes(&[1, 2, 3, 4]), 0x01020304);
    assert_eq!(LittleEndian::i32_from_bytes(&[0xFE, 0xFF, 0xFF, 0xFF]), -2);
    assert_eq!(LittleEndian::u64_from_bytes(&[8, 7, 6, 5, 4, 3, 2, 1]), 0x0102030405060708);
    assert_eq!(BigEndian::i64_from_bytes(&[0x80, 0, 0, 0, 0, 0, 0, 0]), i64::MIN);
    assert!(BigEndian::is_big());
    assert!(!LittleEndian::is_big());
}

#[test]
fn code_units_to_and_from_bytes() {
    assert_eq!(LittleEndian::u16iter_to_bytes(&[0x0041, 0xD83D], 4), vec![0x41, 0x00, 0x3D, 0xD8]);
    assert_eq!(BigEndian::u16iter_to_bytes(&[0x0041, 0xD83D], 0), vec![0x00, 0x41, 0xD8, 0x3D]);
    assert_eq!(LittleEndian::u16iter_to_bytes(&[], 0), Vec::<u8>::new());
    assert_eq!(LittleEndian::u16vec_from_bytes(&[0x41, 0x00, 0x3D, 0xD8]), vec![0x0041, 0xD83D]);
    assert_eq!(BigEndian::u16vec_from_bytes(&[0x00, 0x41, 0xD8, 0x3D]), vec![0x0041, 0xD83D]);
    assert_eq!(BigEndian::u16vec_from_bytes(&[]), Vec::<u16>::new());
}

#[test]
fn budget_allows_every_byte_and_not_one_more() {
    let data = [1u8, 2, 3, 4, 5];
    for n in 0..=5usize {
        let mut reader = BinaryReader::from_le_bytes(&data);
        reader.skip(n).unwrap();
        assert_eq!(reader.total_bytes_read(), n);
    }
    let mut reader = BinaryReader::from_le_bytes(&data);
    match reader.skip(6) {
        Err(ReadError::NotEnoughBytes { expected, actual }) => {
            assert_eq!(expected, 6);
            assert_eq!(actual, 5);
        }
        other => panic!("unexpected outcome {:?}", other),
    }
    assert_eq!(reader.total_bytes_read(), 0);
    reader.skip(3).unwrap();
    match reader.u32() {
        Err(ReadError::NotEnoughBytes { expected, actual }) => {
            assert_eq!(expected, 4);
            assert_eq!(actual, 2);
        }
        other => panic!("unexpected outcome {:?}", other),
    }
    assert_eq!(reader.total_bytes_read(), 3);
    assert_eq!(reader.u16().unwrap(), 0x0504);
}

#[test]
fn supply_that_ends_is_an_io_error() {
    let data = [1u8, 2, 3];
    let mut reader = BinaryReader::new_le(&data);
    assert_eq!(reader.u16().unwrap(), 0x0201);
    assert!(matches!(reader.u16(), Err(ReadError::IoError(_))));
    assert_eq!(reader.total_bytes_read(), 2);
    assert_eq!(reader.u8().unwrap(), 3);
    let mut reader = BinaryReader::new_be(&data);
    assert!(matches!(reader.u32(), Err(ReadError::IoError(_))));
    assert!(reader.check_size(1000).is_ok());
}

#[test]
fn scope_narrows_and_restores_the_ceiling() {
    let data = [1u8, 2, 3, 4, 5, 6, 7, 8];
    let mut reader = BinaryReader::from_le_bytes(&data);
    reader.skip(1).unwrap();
    // The nested value needs four bytes and the scope shows three.
    match reader.read_partial::<u32>(3) {
        Err(ReadError::NotEnoughBytes { expected, actual }) => {
            assert_eq!(expected, 4);
            assert_eq!(actual, 3);
        }
        other => panic!("unexpected outcome {:?}", other),
    }
    assert_eq!(reader.total_bytes_read(), 1);
    // The ceiling outside is back: all seven bytes left can be read.
    assert!(reader.check_size(7).is_ok());
    assert!(matches!(reader.check_size(8), Err(ReadError::NotEnoughBytes { expected: 8, actual: 7 })));
    // A nested value that needs less than the scope leaves the cursor behind the value.
    let v: u16 = reader.read_partial(5).unwrap();
    assert_eq!(v, 0x0302);
    assert_eq!(reader.total_bytes_read(), 3);
    assert!(reader.check_size(5).is_ok());
    assert!(reader.check_size(6).is_err());
    // A failure half way through a nested tuple keeps what was consumed and restores the ceiling.
    let r: Result<(u8, u32), ReadError> = reader.read_partial(3);
    assert!(matches!(r, Err(ReadError::NotEnoughBytes { expected: 4, actual: 2 })));
    assert_eq!(reader.total_bytes_read(), 4);
    assert!(reader.check_size(4).is_ok());
    assert!(reader.check_size(5).is_err());
}

#[test]
fn scope_with_an_argument() {
    let data = [1u8, 0, 2, 0, 3, 0];
    let mut reader = BinaryReader::from_le_bytes(&data);
    let v: Vec<u16> = reader.read_partial_with(4, 2usize).unwrap();
    assert_eq!(v, vec![1, 2]);
    let r: Result<Vec<u16>, ReadError> = reader.read_partial_with(1, 1usize);
    assert!(matches!(r, Err(ReadError::NotEnoughBytes { expected: 2, actual: 1 })));
    assert_eq!(reader.u16().unwrap(), 3);
}

#[test]
fn alignment_skips_to_the_next_multiple() {
    let data = [0u8; 16];
    let mut reader = BinaryReader::from_le_bytes(&data);
    reader.skip(1).unwrap();
    reader.skip_aligned(4).unwrap();
    assert_eq!(reader.total_bytes_read(), 4);
    reader.skip_aligned(4).unwrap();
    assert_eq!(reader.total_bytes_read(), 4);
    reader.skip_aligned(1).unwrap();
    assert_eq!(reader.total_bytes_read(), 4);
    reader.skip(3).unwrap();
    reader.skip_aligned(8).unwrap();
    assert_eq!(reader.total_bytes_read(), 8);
    reader.skip(1).unwrap();
    assert!(matches!(reader.skip_aligned(32), Err(ReadError::NotEnoughBytes { expected: 23, actual: 7 })));
    assert_eq!(reader.total_bytes_read(), 9);
}

#[test]
fn alignment_pads_with_zeros() {
    let mut writer = BinaryWriter::new_le(vec![9u8]);
    writer.fill_aligned(4, 1).unwrap();
    writer.fill_aligned(4, 4).unwrap();
    writer.fill_aligned(4, 0).unwrap();
    writer.fill_aligned(8, 6).unwrap();
    writer.fill_aligned(1, 7).unwrap();
    writer.flush().unwrap();
    assert_eq!(writer.into_inner(), vec![9, 0, 0, 0, 0, 0]);
}

#[test]
fn override_keeps_the_count() {
    let data = [0x01, 0x02, 0x03, 0x04, 0x05, 0x06];
    let mut reader = BinaryReader::from_be_bytes(&data);
    let a: u16 = reader.read_as_le().unwrap();
    assert_eq!(a, 0x0201);
    assert_eq!(reader.total_bytes_read(), 2);
    let b: u16 = reader.read().unwrap();
    assert_eq!(b, 0x0304);
    assert_eq!(reader.total_bytes_read(), 4);
    let c: Vec<u8> = reader.read_as_le_with(2usize).unwrap();
    assert_eq!(c, vec![5, 6]);
    assert_eq!(reader.total_bytes_read(), 6);
    let r: Result<u16, ReadError> = reader.read_as_le();
    assert!(matches!(r, Err(ReadError::NotEnoughBytes { expected: 2, actual: 0 })));

    let mut reader = BinaryReader::from_le_bytes(&data);
    let r: Result<(u16, u64), ReadError> = reader.read_as_be();
    assert!(matches!(r, Err(ReadError::NotEnoughBytes { expected: 8, actual: 4 })));
    // The two bytes that the first field took stay counted.
    assert_eq!(reader.total_bytes_read(), 2);
    assert_eq!(reader.u16().unwrap(), 0x0403);
}

#[test]
fn fixed_string_must_fit_its_slot() {
    let mut writer = BinaryWriter::new_le(Vec::new());
    assert!(matches!(writer.utf8_str("Hello!", StringMode::FixedChars(5)), Err(WriteError::IoError(_))));
    assert!(writer.utf8_str("Hello", StringMode::FixedChars(5)).is_ok());
    assert!(writer.utf8_str("Hi", StringMode::FixedChars(5)).is_ok());
    assert!(writer.utf8_str("", StringMode::FixedChars(0)).is_ok());
    assert_eq!(writer.into_inner(), b"HelloHi\0\0\0");

    let mut writer = BinaryWriter::new_be(Vec::new());
    assert!(matches!(writer.utf16_str("Hello!", StringMode::FixedChars(5)), Err(WriteError::IoError(_))));
    assert!(writer.utf16_str("Hi", StringMode::FixedChars(3)).is_ok());
    assert_eq!(writer.into_inner(), vec![0, b'H', 0, b'i', 0, 0]);

    // The slot counts code units, not characters.
    let mut writer = BinaryWriter::new_le(Vec::new());
    assert!(writer.utf8_str("é", StringMode::FixedChars(1)).is_err());
    assert!(writer.utf8_str("é", StringMode::FixedChars(2)).is_ok());
    assert!(writer.utf16_str("😀", StringMode::FixedChars(1)).is_err());
    assert!(writer.utf16_str("😀", StringMode::FixedChars(2)).is_ok());
    assert_eq!(writer.into_inner(), vec![0xC3, 0xA9, 0x3D, 0xD8, 0x00, 0xDE]);
}

#[test]
fn terminated_string_round_trip() {
    let mut writer = BinaryWriter::new_le(Vec::new());
    writer.utf8_str("Hello", StringMode::NullTerminated).unwrap();
    let bytes = writer.into_inner();
    assert_eq!(bytes, vec![b'H', b'e', b'l', b'l', b'o', 0x00]);
    let mut reader = BinaryReader::from_le_bytes(&bytes);
    assert_eq!(reader.utf8_str(StringMode::NullTerminated).unwrap(), "Hello");
    assert_eq!(reader.total_bytes_read(), 6);
}

#[test]
fn terminated_string_without_terminator() {
    let data = b"abc";
    let mut reader = BinaryReader::from_le_bytes(data);
    assert!(matches!(
        reader.utf8_str(StringMode::NullTerminated),
        Err(ReadError::NotEnoughBytes { expected: 1, actual: 0 })
    ));
    assert_eq!(reader.total_bytes_read(), 3);
    let mut reader = BinaryReader::new_le(data);
    assert!(matches!(reader.utf8_str(StringMode::NullTerminated), Err(ReadError::IoError(_))));
    let data = [b'a', 0, b'b'];
    let mut reader = BinaryReader::from_le_bytes(&data);
    assert!(matches!(
        reader.utf16_str(StringMode::NullTerminated),
        Err(ReadError::NotEnoughBytes { expected: 2, actual: 1 })
    ));
    assert_eq!(reader.total_bytes_read(), 2);
}

#[test]
fn strings_tolerate_malformed_text() {
    let data = [0xFFu8, b'a', 0];
    assert_eq!(BinaryReader::from_le_bytes(&data).utf8_str(StringMode::NullTerminated).unwrap(), "\u{FFFD}a");
    assert_eq!(BinaryReader::from_le_bytes(&data).utf8_str(StringMode::FixedChars(3)).unwrap(), "\u{FFFD}a");
    // An unpaired surrogate, then `a`, then the terminator.
    let data = [0x00u8, 0xD8, b'a', 0, 0, 0];
    assert_eq!(BinaryReader::from_le_bytes(&data).utf16_str(StringMode::NullTerminated).unwrap(), "\u{FFFD}a");
    assert_eq!(parse_fixed_utf16::<LittleEndian>(&data), "\u{FFFD}a");
    let data = [0x3Du8, 0xD8, 0x00, 0xDE, 0, 0];
    assert_eq!(BinaryReader::from_le_bytes(&data).utf16_str(StringMode::FixedChars(3)).unwrap(), "😀");
}

#[test]
fn fixed_slot_is_consumed_whole() {
    let data = b"ab\0cd\0\0\0z";
    let mut reader = BinaryReader::from_le_bytes(data);
    assert_eq!(reader.utf8_str(StringMode::FixedChars(8)).unwrap(), "ab");
    assert_eq!(reader.total_bytes_read(), 8);
    assert_eq!(reader.u8().unwrap(), b'z');
    let mut reader = BinaryReader::from_le_bytes(data);
    assert!(matches!(
        reader.utf8_str(StringMode::FixedChars(10)),
        Err(ReadError::NotEnoughBytes { expected: 10, actual: 9 })
    ));
    assert_eq!(reader.total_bytes_read(), 0);
    let mut reader = BinaryReader::from_le_bytes(data);
    assert!(matches!(
        reader.utf16_str(StringMode::FixedChars(5)),
        Err(ReadError::NotEnoughBytes { expected: 10, actual: 9 })
    ));
}

#[test]
fn truncation_at_the_first_zero() {
    assert_eq!(bytes_before_zero(b"ab\0cd\0"), b"ab");
    assert_eq!(bytes_before_zero(b"abc"), b"abc");
    assert_eq!(bytes_before_zero(b"\0abc"), b"");
    assert_eq!(bytes_before_zero(b""), b"");
    assert_eq!(units_before_zero(&[7, 8, 0, 9]), &[7, 8]);
    assert_eq!(units_before_zero(&[7, 8]), &[7, 8]);
    assert_eq!(take_utf8_char(&[0]), None);
    assert_eq!(take_utf8_char(&[65]), Some(65));
    assert_eq!(take_u16_char::<LittleEndian>(&[0, 0]), None);
    assert_eq!(take_u16_char::<LittleEndian>(&[1, 2]), Some(0x0201));
    assert_eq!(take_u16_char::<BigEndian>(&[1, 2]), Some(0x0102));
    assert_eq!(take_u16_char::<BigEndian>(&[0, 2]), Some(0x0002));
}

#[test]
fn reserved_bytes_are_checked() {
    let data = [0u8, 0, 0, 0];
    let mut reader = BinaryReader::from_be_bytes(&data);
    reader.reserved::<4>(0x00).unwrap();
    assert_eq!(reader.total_bytes_read(), 4);
    let data = [0x00u8, 0x01, 0x00, 0x00];
    let mut reader = BinaryReader::from_be_bytes(&data);
    match reader.reserved::<4>(0x00) {
        Err(ReadError::InvalidDataFormat(text)) => {
            assert_eq!(text, "Expected reserved byte to be 0x00, but got 0x01");
        }
        other => panic!("unexpected outcome {:?}", other),
    }
    assert_eq!(reader.total_bytes_read(), 4);
    let mut reader = BinaryReader::from_be_bytes(&data);
    assert!(matches!(reader.reserved::<5>(0x00), Err(ReadError::NotEnoughBytes { expected: 5, actual: 4 })));
    reader.reserved::<0>(0x07).unwrap();
    assert!(check_reserved(&[3, 3, 3], 3).is_ok());
    assert!(check_reserved(&[], 3).is_ok());
    assert!(matches!(check_reserved(&[3, 3, 4], 3), Err(ReadError::InvalidDataFormat(_))));
}

#[test]
fn reserved_bytes_are_written() {
    let mut writer = BinaryWriter::new_le(Vec::new());
    writer.reserved(0xAB, 3).unwrap();
    writer.reserved(0x00, 0).unwrap();
    writer.bytes(&[1, 2]).unwrap();
    assert_eq!(writer.into_inner(), vec![0xAB, 0xAB, 0xAB, 1, 2]);
}

#[test]
fn tuple_in_both_orders() {
    let data = [0x01, 0x02, 0x03, 0x04];
    let t: (u8, u16) = BinaryReader::from_le_bytes(&data).read().unwrap();
    assert_eq!(t, (0x01, 0x0302));
    let t: (u8, u16) = BinaryReader::from_be_bytes(&data).read().unwrap();
    assert_eq!(t, (0x01, 0x0203));
    let data = [1u8, 2, 3, 4, 5, 6];
    let t: (u8, u8, u8, u8, u8, u8) = BinaryReader::from_le_bytes(&data).read().unwrap();
    assert_eq!(t, (1, 2, 3, 4, 5, 6));
    let t: (u8, i8, u16, (u8, u8)) = BinaryReader::from_be_bytes(&data).read().unwrap();
    assert_eq!(t, (1, 2, 0x0304, (5, 6)));
    let r: Result<(u16, u16, u16, u8), ReadError> = BinaryReader::from_be_bytes(&data).read();
    assert!(matches!(r, Err(ReadError::NotEnoughBytes { expected: 1, actual: 0 })));
    let mut writer = BinaryWriter::new_be(Vec::new());
    writer.write(&(1u8, 2i8, 0x0304u16, (5u8, 6u8), true, 'A')).unwrap();
    assert_eq!(writer.into_inner(), vec![1, 2, 3, 4, 5, 6, 1, 0, 0, 0, 0x41]);
}

#[test]
fn invalid_values_are_refused() {
    assert!(matches!(BinaryReader::from_le_bytes(&[2]).read::<bool>(), Err(ReadError::InvalidDataFormat(_))));
    assert!(matches!(bool_from_byte(0xFF), Err(ReadError::InvalidDataFormat(_))));
    assert_eq!(bool_from_byte(0).unwrap(), false);
    assert_eq!(bool_from_byte(1).unwrap(), true);
    for code in [0xD800u32, 0xDFFF, 0x110000, u32::MAX] {
        let bytes = code.to_le_bytes();
        let mut reader = BinaryReader::from_le_bytes(&bytes);
        assert!(matches!(reader.read::<char>(), Err(ReadError::InvalidDataFormat(_))));
        assert_eq!(reader.total_bytes_read(), 4);
        assert!(char_from_code(code).is_err());
    }
    assert_eq!(char_from_code(0x41).unwrap(), 'A');
    assert_eq!(char_from_code(0x10FFFF).unwrap(), char::MAX);
    match char_from_code(0xD800) {
        Err(ReadError::InvalidDataFormat(text)) => assert_eq!(text, "Invalid char value: 55296"),
        other => panic!("unexpected outcome {:?}", other),
    }
    let data = [1u8, 2, 3];
    let mut reader = BinaryReader::from_le_bytes(&data);
    match reader.value(&2u8) {
        Err(ReadError::InvalidDataFormat(text)) => {
            assert_eq!(text, "Expected value to be 2, but got something else");
        }
        other => panic!("unexpected outcome {:?}", other),
    }
    assert_eq!(reader.total_bytes_read(), 1);
    assert!(matches!(reader.values(&[2u8, 4u8]), Err(ReadError::InvalidDataFormat(_))));
    assert_eq!(reader.total_bytes_read(), 3);
    assert!(matches!(reader.value(&0u8), Err(ReadError::NotEnoughBytes { expected: 1, actual: 0 })));
}

#[test]
fn values_are_held_against_expectations() {
    assert!(check_value(&(1u8, 2u16), &(1u8, 2u16)).is_ok());
    match check_value(&(1u8, 2u16), &(1u8, 3u16)) {
        Err(ReadError::InvalidDataFormat(text)) => {
            assert_eq!(text, "Expected value to be (1, 3), but got something else");
        }
        other => panic!("unexpected outcome {:?}", other),
    }
    let data = [1u8, 2, 0, 9];
    let mut reader = BinaryReader::from_le_bytes(&data);
    reader.value(&(1u8, 2u16)).unwrap();
    reader.values::<u8>(&[]).unwrap();
    assert_eq!(reader.total_bytes_read(), 3);
    reader.values(&[9u8]).unwrap();
    assert_eq!(reader.total_bytes_read(), 4);
}

#[test]
fn probe_run_stops_at_the_first_refusal() {
    let data = [5u8, 6, 7, 0, 9];
    let mut reader = BinaryReader::from_le_bytes(&data);
    let run: Vec<u8> = reader.read_while(|b: &[u8; 1]| if b[0] == 7 { None } else { Some(b[0] * 2) }).unwrap();
    assert_eq!(run, vec![10, 12]);
    assert_eq!(reader.total_bytes_read(), 3);
    let run = reader.read_while(|b: &[u8; 2]| Some(b[0]));
    assert!(matches!(run, Err(ReadError::NotEnoughBytes { expected: 2, actual: 0 })));
    assert_eq!(reader.total_bytes_read(), 5);
}

#[test]
fn transfers_with_an_interpretation() {
    let data = [1u8, 2, 3, 4, 5];
    let mut reader = BinaryReader::from_le_bytes(&data);
    let sum: u32 = reader.read_from_slice(3, |b| Ok(b.iter().map(|x| *x as u32).sum())).unwrap();
    assert_eq!(sum, 6);
    let pair: (u8, u8) = reader.read_from_array(|b: &[u8; 2]| (b[1], b[0])).unwrap();
    assert_eq!(pair, (5, 4));
    let r: Result<u8, ReadError> = reader.read_from_array(|b: &[u8; 1]| b[0]);
    assert!(matches!(r, Err(ReadError::NotEnoughBytes { expected: 1, actual: 0 })));
    let r: Result<(), ReadError> = reader.read_from_slice(0, |_| Err(ReadError::InvalidArgument));
    assert!(matches!(r, Err(ReadError::InvalidArgument)));
}

#[test]
fn optional_values_and_sequences() {
    let mut writer = BinaryWriter::new_le(Vec::new());
    writer.write(&Some(0x0102u16)).unwrap();
    writer.write(&None::<u16>).unwrap();
    writer.write(&[1u8, 2, 3]).unwrap();
    writer.write(&vec![(1u8, 2u16)]).unwrap();
    let words: &[u16] = &[0x0a0b];
    writer.write(&words).unwrap();
    let bytes = writer.into_inner();
    assert_eq!(bytes, vec![2, 1, 1, 2, 3, 1, 2, 0, 0x0b, 0x0a]);
    let mut reader = BinaryReader::from_le_bytes(&bytes);
    assert_eq!(reader.read_with::<Option<u16>, bool>(true).unwrap(), Some(0x0102));
    assert_eq!(reader.read_with::<Option<u16>, bool>(false).unwrap(), None);
    assert_eq!(reader.read::<[u8; 3]>().unwrap(), [1, 2, 3]);
    assert_eq!(reader.read_with::<Vec<(u8, u16)>, usize>(1).unwrap(), vec![(1, 2)]);
    assert_eq!(reader.read_with::<Vec<u16>, usize>(0).unwrap(), Vec::<u16>::new());
    let r: Result<Vec<u16>, ReadError> = reader.read_with(2usize);
    assert!(matches!(r, Err(ReadError::NotEnoughBytes { expected: 2, actual: 0 })));
    assert_eq!(reader.total_bytes_read(), 10);
}

struct Scaled(u16);

impl WriteWith<u16> for Scaled {
    fn write_with<E: Endian>(&self, writer: &mut BinaryWriter<E>, factor: u16) -> Result<(), WriteError> {
        writer.u16(self.0 * factor)
    }
}

struct Label(&'static str);

impl Write for Label {
    fn write<E: Endian>(&self, writer: &mut BinaryWriter<E>) -> Result<(), WriteError> {
        writer.u8(0x4C)?;
        writer.utf8_str(self.0, StringMode::FixedChars(4))
    }
}

#[test]
fn user_types_plug_in() {
    let mut writer = BinaryWriter::new_le(Vec::new());
    writer.write_with(&Scaled(3), 0x0100).unwrap();
    writer.write_as_be_with(&Scaled(3), 0x0100).unwrap();
    writer.write(&Label("ab")).unwrap();
    // The part written before the failure stays written.
    assert!(writer.write(&(Label("abcde"), 7u8)).is_err());
    assert_eq!(writer.into_inner(), vec![0x00, 0x03, 0x03, 0x00, 0x4C, b'a', b'b', 0, 0, 0x4C]);

    let mut writer = BinaryWriter::new_be(Vec::new());
    writer.write_as_le(&0x0102u16).unwrap();
    writer.write_as_le_with(&Scaled(1), 0x0102).unwrap();
    writer.write(&0x0102u16).unwrap();
    assert_eq!(writer.into_inner(), vec![2, 1, 2, 1, 1, 2]);
}

#[test]
fn budget_scopes_nest() {
    let mut budget = Budget::with_ceiling(10);
    assert!(budget.check_size(10).is_ok());
    assert!(matches!(
        budget.check_size(11),
        Err(ReadError::NotEnoughBytes { expected: 11, actual: 10 })
    ));
    budget.advance(4);
    assert_eq!(budget.total_bytes_read(), 4);
    assert_eq!(budget.padding(8), 4);
    assert_eq!(budget.padding(4), 0);
    assert_eq!(budget.padding(3), 2);
    let outer = budget.enter_scope(3);
    assert!(budget.check_size(3).is_ok());
    assert!(matches!(budget.check_size(4), Err(ReadError::NotEnoughBytes { expected: 4, actual: 3 })));
    budget.advance(1);
    let inner = budget.enter_scope(1);
    assert!(budget.check_size(2).is_err());
    assert!(budget.exit_scope(inner));
    assert!(budget.check_size(2).is_ok());
    assert!(budget.exit_scope(outer));
    assert!(budget.check_size(5).is_ok());
    assert!(matches!(budget.check_size(6), Err(ReadError::NotEnoughBytes { expected: 6, actual: 5 })));

    let unbounded = Budget::new();
    assert!(unbounded.check_size(usize::MAX).is_ok());
}

#[test]
fn budget_refuses_a_ceiling_from_ahead() {
    let mut ahead = Budget::new();
    ahead.advance(10);
    let _ = ahead.enter_scope(usize::MAX);
    let saved = ahead.enter_scope(1);
    let mut behind = Budget::with_ceiling(5);
    assert!(!behind.exit_scope(saved));
    assert!(behind.check_size(5).is_ok());
    assert!(behind.check_size(6).is_err());
    behind.advance(5);
    let mut level = Budget::new();
    level.advance(10);
    assert!(level.exit_scope(saved));
    assert!(level.check_size(usize::MAX).is_ok());
}

#[test]
fn scope_wider_than_the_ceiling_outside() {
    let data = [1u8, 2, 3, 4];
    let mut reader = BinaryReader::from_le_bytes(&data);
    reader.skip(3).unwrap();
    // The scope shows more than the supply holds: the supply ends first.
    let r: Result<u16, ReadError> = reader.read_partial(5);
    assert!(matches!(r, Err(ReadError::IoError(_))));
    assert_eq!(reader.total_bytes_read(), 3);
    assert!(matches!(reader.check_size(2), Err(ReadError::NotEnoughBytes { expected: 2, actual: 1 })));
    assert_eq!(reader.read_partial::<u8>(5).unwrap(), 4);
}

#[test]
fn error_constructors() {
    assert!(matches!(ReadError::not_enough_bytes(3, 1), ReadError::NotEnoughBytes { expected: 3, actual: 1 }));
    match ReadError::invalid_data_format("bad") {
        ReadError::InvalidDataFormat(text) => assert_eq!(text, "bad"),
        other => panic!("unexpected value {:?}", other),
    }
    let e = std::io::Error::new(std::io::ErrorKind::Other, "down");
    match ReadError::io_error(e) {
        ReadError::IoError(inner) => assert_eq!(inner.kind(), std::io::ErrorKind::Other),
        other => panic!("unexpected value {:?}", other),
    }
    let e = std::io::Error::new(std::io::ErrorKind::BrokenPipe, "down");
    match WriteError::io_error(e) {
        WriteError::IoError(inner) => assert_eq!(inner.kind(), std::io::ErrorKind::BrokenPipe),
    }
    match BinaryReader::new_le(&[]).u8() {
        Err(ReadError::IoError(inner)) => assert_eq!(inner.kind(), std::io::ErrorKind::UnexpectedEof),
        other => panic!("unexpected outcome {:?}", other),
    }
    match BinaryWriter::new_le(Vec::new()).utf8_str("ab", StringMode::FixedChars(1)) {
        Err(WriteError::IoError(inner)) => {
            assert_eq!(inner.kind(), std::io::ErrorKind::InvalidInput);
            assert_eq!(inner.to_string(), "String is too long for fixed size");
        }
        other => panic!("unexpected outcome {:?}", other),
    }
}

#[test]
fn writer_sequence_with_alignment() {
    let mut writer = BinaryWriter::new_be(Vec::new());

    assert!(writer.write(&29u8).is_ok());
    assert!(writer.fill_aligned(4, 1).is_ok());
    assert!(writer.write(&[1u8, 2, 3, 4]).is_ok());
    assert!(writer.reserved(0, 1).is_ok());
    assert!(writer.write(&(0x56_u8, 0x789A_u16)).is_ok());
    assert!(writer.write(&0x12345678_u32).is_ok());
    assert!(writer.flush().is_ok());

    let expected = [
        29, 0, 0, 0, // 4-byte alignment
        1, 2, 3, 4, // 4 bytes
        0, // 1 byte reserved
        0x56, 0x78, 0x9A, // 3 bytes for u8 and u16
        0x12, 0x34, 0x56, 0x78, // 4 bytes
    ];
    assert_eq!(&writer.into_inner()[..], &expected[..]);
}

#[test]
fn writer_strings_in_every_layout() {
    let mut writer = BinaryWriter::new_be(Vec::new());
    assert!(writer.utf8_str("Hello", StringMode::NullTerminated).is_ok());
    assert!(writer.utf8_str("World", StringMode::NullTerminated).is_ok());
    let expected = [
        72, 101, 108, 108, 111, 0, // "Hello\0"
        87, 111, 114, 108, 100, 0, // "World\0"
    ];
    assert_eq!(&writer.into_inner()[..], &expected[..]);

    let mut writer = BinaryWriter::new_be(Vec::new());
    assert!(writer.utf8_str("Hello", StringMode::FixedChars(10)).is_ok());
    assert!(writer.utf8_str("World", StringMode::FixedChars(10)).is_ok());
    let expected = [
        72, 101, 108, 108, 111, 0, 0, 0, 0, 0, // "Hello\0\0\0\0"
        87, 111, 114, 108, 100, 0, 0, 0, 0, 0, // "World\0\0\0\0"
    ];
    assert_eq!(&writer.into_inner()[..], &expected[..]);

    let mut writer = BinaryWriter::new_be(Vec::new());
    assert!(writer.utf16_str("Hello", StringMode::NullTerminated).is_ok());
    assert!(writer.utf16_str("World", StringMode::NullTerminated).is_ok());
    let expected = [
        0, b'H', 0, b'e', 0, b'l', 0, b'l', 0, b'o', 0, 0, // "Hello\0"
        0, b'W', 0, b'o', 0, b'r', 0, b'l', 0, b'd', 0, 0, // "World\0"
    ];
    assert_eq!(&writer.into_inner()[..], &expected[..]);

    let mut writer = BinaryWriter::new_be(Vec::new());
    assert!(writer.utf16_str("Hello", StringMode::FixedChars(6)).is_ok());
    assert!(writer.utf16_str("World", StringMode::FixedChars(6)).is_ok());
    let expected = [
        0, b'H', 0, b'e', 0, b'l', 0, b'l', 0, b'o', 0, 0, // "Hello\0\0"
        0, b'W', 0, b'o', 0, b'r', 0, b'l', 0, b'd', 0, 0, // "World\0\0"
    ];
    assert_eq!(&writer.into_inner()[..], &expected[..]);

    let mut writer = BinaryWriter::new_le(Vec::new());
    writer.utf8_units(&[1, 2], StringMode::FixedChars(3)).unwrap();
    writer.utf16_units(&[0x0102], StringMode::NullTerminated).unwrap();
    assert!(writer.utf16_units(&[1, 2], StringMode::FixedChars(1)).is_err());
    assert_eq!(writer.into_inner(), vec![1, 2, 0, 2, 1, 0, 0]);
}

struct Shifted(u8);

impl Model for Shifted {
    type Value = u8;
}

impl<'b> ReadWith<&'b u8> for Shifted {
    fn read_with<E: Endian>(reader: &mut BinaryReader<'_, E>, by: &'b u8) -> Result<Self, ReadError> {
        Ok(Shifted(reader.u8()? + *by))
    }
}

#[test]
fn sequence_with_a_shared_argument() {
    let data = [1u8, 2, 3];
    let by = 10u8;
    let mut reader = BinaryReader::from_le_bytes(&data);
    let items: Vec<Shifted> = reader.read_with((2usize, &by)).unwrap();
    assert_eq!(items.iter().map(|s| s.0).collect::<Vec<u8>>(), vec![11, 12]);
    assert_eq!(reader.total_bytes_read(), 2);
    let r: Result<Vec<Shifted>, ReadError> = reader.read_with((2usize, &by));
    assert!(matches!(r, Err(ReadError::NotEnoughBytes { expected: 1, actual: 0 })));
    assert_eq!(reader.total_bytes_read(), 3);
}

#[test]
fn numbers_as_text() {
    let mut text = String::from("0x");
    push_hex(&mut text, 0x00);
    push_hex(&mut text, 0x0A);
    push_hex(&mut text, 0xB9);
    push_hex(&mut text, 0xFF);
    assert_eq!(text, "0x000AB9FF");
    for value in [0u32, 7, 9, 10, 11, 99, 100, 101, 55296, 1_000_000, u32::MAX] {
        let mut text = String::from("n=");
        push_decimal(&mut text, value);
        assert_eq!(text, format!("n={}", value));
    }
    for byte in 0..=255u8 {
        let mut text = String::new();
        push_hex(&mut text, byte);
        assert_eq!(text, format!("{:02X}", byte));
    }
}

fn wide_text(units: &[u16]) -> String {
    let bytes = BigEndian::u16iter_to_bytes(units, 0);
    BinaryReader::from_be_bytes(&bytes).utf16_str(StringMode::FixedChars(units.len())).unwrap()
}

#[test]
fn surrogates_pair_up_or_are_replaced() {
    assert_eq!(wide_text(&[0x0041, 0x00E9, 0xFFFF]), "Aé\u{FFFF}");
    assert_eq!(wide_text(&[0xD83D, 0xDE00]), "😀");
    assert_eq!(wide_text(&[0xDBFF, 0xDFFF]), "\u{10FFFF}");
    assert_eq!(wide_text(&[0xD800, 0xDC00]), "\u{10000}");
    assert_eq!(wide_text(&[0xDC00]), "\u{FFFD}");
    assert_eq!(wide_text(&[0xD800]), "\u{FFFD}");
    assert_eq!(wide_text(&[0xDE00, 0xD83D]), "\u{FFFD}\u{FFFD}");
    assert_eq!(wide_text(&[0xD83D, 0xD83D, 0xDE00]), "\u{FFFD}😀");
    assert_eq!(wide_text(&[0xD83D, 0x0041, 0xDE00, 0x0042]), "\u{FFFD}A\u{FFFD}B");
}

#[test]
fn text_to_code_units() {
    let mut writer = BinaryWriter::new_be(Vec::new());
    writer.utf16_str("a😀\u{10000}\u{10FFFF}\u{FFFF}", StringMode::NullTerminated).unwrap();
    assert_eq!(
        writer.into_inner(),
        vec![0x00, 0x61, 0xD8, 0x3D, 0xDE, 0x00, 0xD8, 0x00, 0xDC, 0x00, 0xDB, 0xFF, 0xDF, 0xFF, 0xFF, 0xFF, 0, 0]
    );
    for text in ["", "Hello", "héllo wörld", "日本語", "a😀b", "\u{10FFFF}\u{D7FF}\u{E000}"] {
        for big in [false, true] {
            let bytes = if big {
                let mut w = BinaryWriter::new_be(Vec::new());
                w.utf16_str(text, StringMode::NullTerminated).unwrap();
                w.utf8_str(text, StringMode::NullTerminated).unwrap();
                w.into_inner()
            } else {
                let mut w = BinaryWriter::new_le(Vec::new());
                w.utf16_str(text, StringMode::NullTerminated).unwrap();
                w.utf8_str(text, StringMode::NullTerminated).unwrap();
                w.into_inner()
            };
            if big {
                let mut r = BinaryReader::from_be_bytes(&bytes);
                assert_eq!(r.utf16_str(StringMode::NullTerminated).unwrap(), text);
                assert_eq!(r.utf8_str(StringMode::NullTerminated).unwrap(), text);
                assert_eq!(r.total_bytes_read(), bytes.len());
            } else {
                let mut r = BinaryReader::from_le_bytes(&bytes);
                assert_eq!(r.utf16_str(StringMode::NullTerminated).unwrap(), text);
                assert_eq!(r.utf8_str(StringMode::NullTerminated).unwrap(), text);
                assert_eq!(r.total_bytes_read(), bytes.len());
            }
        }
    }
}
