use factorio_file_parser::{Deserialiser, Error, Serialiser, Version, Version48};

#[test]
fn peek_u8_does_not_move() {
    let bytes = [9u8, 8];
    let mut d = Deserialiser::new(&bytes);
    assert_eq!(d.peek_u8(), Ok(9));
    assert_eq!(d.peek_u8(), Ok(9));
    assert_eq!(d.remaining(), &bytes[..]);
}

#[test]
fn peek_u8_at_the_end_is_eof() {
    let mut d = Deserialiser::new(&[]);
    assert_eq!(d.peek_u8(), Err(Error::Eof));
}

#[test]
fn next_u8_reads_and_moves() {
    let bytes = [9u8, 8];
    let mut d = Deserialiser::new(&bytes);
    assert_eq!(d.next_u8(), Ok(9));
    assert_eq!(d.next_u8(), Ok(8));
    assert_eq!(d.next_u8(), Err(Error::Eof));
}

#[test]
fn next_u16_reads_little_endian() {
    let bytes = [0x34u8, 0x12, 0xff];
    let mut d = Deserialiser::new(&bytes);
    assert_eq!(d.next_u16(), Ok(0x1234));
    assert_eq!(d.remaining(), &[0xffu8][..]);
}

#[test]
fn next_u16_on_one_byte_is_a_slicing_error() {
    let bytes = [0x34u8];
    let mut d = Deserialiser::new(&bytes);
    assert_eq!(d.next_u16(), Err(Error::ByteSlicingError));
    assert_eq!(d.remaining(), &bytes[..]);
}

#[test]
fn next_u32_reads_little_endian() {
    let bytes = [0x78u8, 0x56, 0x34, 0x12];
    let mut d = Deserialiser::new(&bytes);
    assert_eq!(d.next_u32(), Ok(0x1234_5678));
    assert!(d.remaining().is_empty());
}

#[test]
fn next_u32_reads_the_largest_value() {
    let bytes = [0xffu8, 0xff, 0xff, 0xff];
    let mut d = Deserialiser::new(&bytes);
    assert_eq!(d.next_u32(), Ok(u32::MAX));
}

#[test]
fn next_u32_on_three_bytes_is_a_slicing_error() {
    let bytes = [1u8, 2, 3];
    let mut d = Deserialiser::new(&bytes);
    assert_eq!(d.next_u32(), Err(Error::ByteSlicingError));
}

#[test]
fn next_u16_optim_takes_one_byte_below_255() {
    let bytes = [254u8, 7];
    let mut d = Deserialiser::new(&bytes);
    assert_eq!(d.next_u16_optim(), Ok(254));
    assert_eq!(d.remaining(), &[7u8][..]);
}

#[test]
fn next_u16_optim_takes_two_more_bytes_after_255() {
    let bytes = [255u8, 0x34, 0x12, 7];
    let mut d = Deserialiser::new(&bytes);
    assert_eq!(d.next_u16_optim(), Ok(0x1234));
    assert_eq!(d.remaining(), &[7u8][..]);
}

#[test]
fn next_u16_optim_fails_where_bytes_are_missing() {
    let mut d = Deserialiser::new(&[]);
    assert_eq!(d.next_u16_optim(), Err(Error::Eof));
    let bytes = [255u8, 1];
    let mut d = Deserialiser::new(&bytes);
    assert_eq!(d.next_u16_optim(), Err(Error::ByteSlicingError));
}

#[test]
fn next_u32_optim_takes_one_byte_below_255() {
    let bytes = [0u8];
    let mut d = Deserialiser::new(&bytes);
    assert_eq!(d.next_u32_optim(), Ok(0));
}

#[test]
fn next_u32_optim_takes_four_more_bytes_after_255() {
    let bytes = [255u8, 0x2c, 0x01, 0x00, 0x00];
    let mut d = Deserialiser::new(&bytes);
    assert_eq!(d.next_u32_optim(), Ok(300));
    assert!(d.remaining().is_empty());
}

#[test]
fn next_u32_optim_fails_where_bytes_are_missing() {
    let bytes = [255u8, 1, 2, 3];
    let mut d = Deserialiser::new(&bytes);
    assert_eq!(d.next_u32_optim(), Err(Error::ByteSlicingError));
}

#[test]
fn parse_bool_takes_exactly_one_for_true() {
    let bytes = [0u8, 1, 2, 255];
    let mut d = Deserialiser::new(&bytes);
    assert_eq!(d.parse_bool(), Ok(false));
    assert_eq!(d.parse_bool(), Ok(true));
    assert_eq!(d.parse_bool(), Ok(false));
    assert_eq!(d.parse_bool(), Ok(false));
    assert_eq!(d.parse_bool(), Err(Error::Eof));
}

#[test]
fn parse_double_gives_the_bits_of_the_double() {
    let bytes = 1.5f64.to_le_bytes();
    let mut d = Deserialiser::new(&bytes);
    let bits = d.parse_double().unwrap();
    assert_eq!(f64::from_bits(bits), 1.5);
    assert_eq!(bits, 0x3ff8_0000_0000_0000);
}

#[test]
fn parse_double_on_seven_bytes_is_a_slicing_error() {
    let bytes = [0u8; 7];
    let mut d = Deserialiser::new(&bytes);
    assert_eq!(d.parse_double(), Err(Error::ByteSlicingError));
}

#[test]
fn parse_string_reads_the_empty_flag() {
    let bytes = [1u8, 3, b'a'];
    let mut d = Deserialiser::new(&bytes);
    assert_eq!(d.parse_string(), Ok(String::new()));
    assert_eq!(d.remaining(), &[3u8, b'a'][..]);
}

#[test]
fn parse_string_reads_length_and_bytes() {
    let bytes = [0u8, 3, b'a', b'b', b'c', 9];
    let mut d = Deserialiser::new(&bytes);
    assert_eq!(d.parse_string(), Ok("abc".to_string()));
    assert_eq!(d.remaining(), &[9u8][..]);
}

#[test]
fn parse_string_reads_a_length_of_zero() {
    let bytes = [0u8, 0, 9];
    let mut d = Deserialiser::new(&bytes);
    assert_eq!(d.parse_string(), Ok(String::new()));
    assert_eq!(d.remaining(), &[9u8][..]);
}

#[test]
fn parse_string_reads_more_than_one_byte_per_character() {
    let text = "héllo ✓";
    let mut bytes = vec![0u8, text.len() as u8];
    bytes.extend_from_slice(text.as_bytes());
    let mut d = Deserialiser::new(&bytes);
    assert_eq!(d.parse_string(), Ok(text.to_string()));
}

#[test]
fn parse_string_refuses_bytes_that_are_not_utf8() {
    let bytes = [0u8, 2, 0xc3, 0x28];
    let mut d = Deserialiser::new(&bytes);
    assert!(matches!(d.parse_string(), Err(Error::Utf8(_))));
}

#[test]
fn parse_string_refuses_a_length_beyond_the_buffer() {
    let bytes = [0u8, 4, b'a', b'b', b'c'];
    let mut d = Deserialiser::new(&bytes);
    assert_eq!(d.parse_string(), Err(Error::ByteSlicingError));
}

#[test]
fn parse_string_saveheader_has_no_empty_flag() {
    let bytes = [4u8, b'b', b'a', b's', b'e', 1];
    let mut d = Deserialiser::new(&bytes);
    assert_eq!(d.parse_string_saveheader(), Ok("base".to_string()));
    assert_eq!(d.remaining(), &[1u8][..]);
    let bytes = [0u8];
    let mut d = Deserialiser::new(&bytes);
    assert_eq!(d.parse_string_saveheader(), Ok(String::new()));
}

#[test]
fn parse_string_with_either_convention() {
    let bytes = [1u8, b'x'];
    let mut d = Deserialiser::new(&bytes);
    assert_eq!(d._parse_string(false), Ok("x".to_string()));
    let mut d = Deserialiser::new(&bytes);
    assert_eq!(d._parse_string(true), Ok(String::new()));
}

#[test]
fn parse_string_reads_a_long_length() {
    let mut bytes = vec![0u8, 255, 0x2c, 0x01, 0x00, 0x00];
    bytes.extend(std::iter::repeat(b'z').take(300));
    let mut d = Deserialiser::new(&bytes);
    assert_eq!(d.parse_string(), Ok("z".repeat(300)));
    assert!(d.remaining().is_empty());
}

#[test]
fn parse_version_reads_four_numbers() {
    let bytes = [1u8, 0, 2, 0, 3, 0, 4, 1];
    let mut d = Deserialiser::new(&bytes);
    assert_eq!(
        d.parse_version(),
        Ok(Version { main: 1, major: 2, minor: 3, developer: 0x104 })
    );
}

#[test]
fn parse_version_on_seven_bytes_is_a_slicing_error() {
    let bytes = [1u8, 0, 2, 0, 3, 0, 4];
    let mut d = Deserialiser::new(&bytes);
    assert_eq!(d.parse_version(), Err(Error::ByteSlicingError));
}

#[test]
fn parse_version48_reads_three_numbers() {
    let bytes = [2u8, 255, 0x10, 0x27, 28];
    let mut d = Deserialiser::new(&bytes);
    assert_eq!(d.parse_version48(), Ok(Version48 { main: 2, major: 10000, minor: 28 }));
}

#[test]
fn parse_version48_on_two_bytes_is_eof() {
    let bytes = [2u8, 0];
    let mut d = Deserialiser::new(&bytes);
    assert_eq!(d.parse_version48(), Err(Error::Eof));
}

#[test]
fn a_new_serialiser_is_empty() {
    assert!(Serialiser::new().bytes.is_empty());
}

#[test]
fn write_u8_appends_the_byte() {
    let mut s = Serialiser::new();
    s.write_u8(7);
    s.write_u8(255);
    assert_eq!(s.bytes, vec![7u8, 255]);
}

#[test]
fn write_u16_writes_little_endian() {
    let mut s = Serialiser::new();
    s.write_u16(0x1234);
    assert_eq!(s.bytes, vec![0x34u8, 0x12]);
}

#[test]
fn write_u32_writes_little_endian() {
    let mut s = Serialiser::new();
    s.write_u32(0x0102_0304);
    assert_eq!(s.bytes, vec![4u8, 3, 2, 1]);
}

#[test]
fn write_bool_writes_one_or_zero() {
    let mut s = Serialiser::new();
    s.write_bool(true);
    s.write_bool(false);
    assert_eq!(s.bytes, vec![1u8, 0]);
}

#[test]
fn write_double_writes_the_bits_little_endian() {
    let mut s = Serialiser::new();
    s.write_double((-2.25f64).to_bits());
    assert_eq!(s.bytes, (-2.25f64).to_le_bytes().to_vec());
}

#[test]
fn write_version_writes_main_first() {
    let mut s = Serialiser::new();
    s.write_version(0x0001_0002_0003_0104);
    assert_eq!(s.bytes, vec![1u8, 0, 2, 0, 3, 0, 4, 1]);
}

#[test]
fn write_string_marks_the_empty_string() {
    let mut s = Serialiser::new();
    s.write_string(String::new());
    assert_eq!(s.bytes, vec![1u8]);
}

#[test]
fn write_string_of_254_bytes_has_its_length_in_one_byte() {
    let mut s = Serialiser::new();
    s.write_string("a".repeat(254));
    let mut expected = vec![0x00u8, 0xfe];
    expected.extend(std::iter::repeat(b'a').take(254));
    assert_eq!(s.bytes, expected);
}

#[test]
fn write_string_of_255_bytes_has_its_length_in_four_bytes() {
    let mut s = Serialiser::new();
    s.write_string("a".repeat(255));
    let mut expected = vec![0x00u8, 0xff, 0xff, 0x00, 0x00, 0x00];
    expected.extend(std::iter::repeat(b'a').take(255));
    assert_eq!(s.bytes, expected);
}

#[test]
fn write_string_of_300_bytes_has_its_length_in_four_bytes() {
    let mut s = Serialiser::new();
    s.write_string("a".repeat(300));
    let mut expected = vec![0x00u8, 0xff, 0x2c, 0x01, 0x00, 0x00];
    expected.extend(std::iter::repeat(b'a').take(300));
    assert_eq!(s.bytes, expected);
}

#[test]
fn write_string_counts_bytes_and_not_characters() {
    let mut s = Serialiser::new();
    s.write_string("é".to_string());
    assert_eq!(s.bytes, vec![0u8, 2, 0xc3, 0xa9]);
}

#[test]
fn strings_come_back_as_written() {
    for len in [0usize, 1, 254, 255, 256, 300, 70000] {
        let text = "q".repeat(len);
        let mut s = Serialiser::new();
        s.write_string(text.clone());
        s.write_u8(0xaa);
        let mut d = Deserialiser::new(&s.bytes);
        assert_eq!(d.parse_string(), Ok(text));
        assert_eq!(d.remaining(), &[0xaau8][..]);
    }
}

#[test]
fn numbers_come_back_as_written() {
    let mut s = Serialiser::new();
    s.write_u16(65535);
    s.write_u32(4_000_000_000);
    s.write_double(f64::NAN.to_bits());
    s.write_bool(true);
    let mut d = Deserialiser::new(&s.bytes);
    assert_eq!(d.next_u16(), Ok(65535));
    assert_eq!(d.next_u32(), Ok(4_000_000_000));
    assert_eq!(d.parse_double(), Ok(f64::NAN.to_bits()));
    assert_eq!(d.parse_bool(), Ok(true));
    assert!(d.remaining().is_empty());
}
