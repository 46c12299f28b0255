use factorio_file_parser::version::decimal_string;
use factorio_file_parser::{BuildNumber, Deserialiser, Error, SaveHeaderMod, Version, Version48};

#[test]
fn errors_without_a_message_are_named() {
    assert_eq!(
        Error::ByteSlicingError.to_string(),
        "factorio-file-parser::Error::ByteSlicingError"
    );
    assert_eq!(Error::Eof.to_string(), "factorio-file-parser::Error::Eof");
    assert_eq!(Error::OutOfRange.to_string(), "factorio-file-parser::Error::OutOfRange");
    assert_eq!(Error::TrailingBytes.to_string(), "factorio-file-parser::Error::TrailingBytes");
}

#[test]
fn errors_with_a_message_hold_it_in_brackets() {
    assert_eq!(
        Error::Message("odd".to_string()).to_string(),
        "factorio-file-parser::Error::Message(odd)"
    );
    assert_eq!(
        Error::Syntax("Settings section 'startup' missing".to_string()).to_string(),
        "factorio-file-parser::Error::Syntax(Settings section 'startup' missing)"
    );
}

#[test]
fn a_utf8_error_holds_the_detail_of_the_standard_library() {
    let bytes = [0u8, 2, b'a', 0xff];
    let e = Deserialiser::new(&bytes).parse_string().unwrap_err();
    let detail = std::str::from_utf8(&bytes[2..]).unwrap_err();
    assert_eq!(e, Error::Utf8(detail));
    assert_eq!(e.to_string(), format!("factorio-file-parser::Error::Utf8({})", detail));
}

#[test]
fn numbers_are_written_in_decimal() {
    assert_eq!(decimal_string(0), "0");
    assert_eq!(decimal_string(7), "7");
    assert_eq!(decimal_string(10), "10");
    assert_eq!(decimal_string(1234567890), "1234567890");
    assert_eq!(decimal_string(u32::MAX), "4294967295");
}

#[test]
fn a_version_is_written_with_dots() {
    let v = Version { main: 1, major: 1, minor: 110, developer: 0 };
    assert_eq!(v.to_string(), "1.1.110.0");
    let v = Version { main: 65535, major: 0, minor: 9, developer: 10 };
    assert_eq!(v.to_string(), "65535.0.9.10");
}

#[test]
fn a_compact_version_is_written_with_dots() {
    let v = Version48 { main: 2, major: 0, minor: 28 };
    assert_eq!(v.to_string(), "2.0.28");
}

#[test]
fn a_build_number_is_written_in_decimal() {
    assert_eq!(BuildNumber::Build16(62345).to_string(), "62345");
    assert_eq!(BuildNumber::Build32(79242).to_string(), "79242");
}

#[test]
fn a_mod_is_written_as_name_and_version() {
    let m = SaveHeaderMod {
        name: "space-age".to_string(),
        version: Version48 { main: 2, major: 0, minor: 28 },
        crc: 5,
    };
    assert_eq!(m.to_string(), "space-age 2.0.28");
}

#[test]
fn errors_can_be_cloned_and_compared() {
    let e = Error::Syntax("x".to_string());
    assert_eq!(e.clone(), e);
    assert_ne!(e, Error::Message("x".to_string()));
}
