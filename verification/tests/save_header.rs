use std::convert::TryFrom;

use factorio_file_parser::{BuildNumber, Error, SaveHeader, SaveHeaderMod, Version, Version48};

fn put_text(out: &mut Vec<u8>, text: &str) {
    out.push(text.len() as u8);
    out.extend_from_slice(text.as_bytes());
}

fn vanilla_1_1() -> Vec<u8> {
    let mut b = vec![1u8, 0, 1, 0, 110, 0, 0, 0];
    b.push(0);
    put_text(&mut b, "freeplay");
    put_text(&mut b, "freeplay");
    put_text(&mut b, "base");
    b.push(3);
    b.extend_from_slice(&[0, 1]);
    put_text(&mut b, "");
    b.extend_from_slice(&[1, 0, 1, 0]);
    b.extend_from_slice(&[1, 1, 110]);
    b.extend_from_slice(&[0x34, 0x12]);
    b.push(1);
    b.push(1);
    put_text(&mut b, "base");
    b.extend_from_slice(&[1, 1, 110]);
    b.extend_from_slice(&[0xef, 0xbe, 0xad, 0xde]);
    b
}

fn expected_1_1() -> SaveHeader {
    SaveHeader {
        factorio_version: Version { main: 1, major: 1, minor: 110, developer: 0 },
        campaign: "freeplay".to_string(),
        name: "freeplay".to_string(),
        base_mod: "base".to_string(),
        difficulty: 3,
        finished: false,
        player_won: true,
        next_level: String::new(),
        can_continue: true,
        finished_but_continuing: false,
        saving_replay: true,
        allow_non_admin_debug_options: false,
        loaded_from: Version48 { main: 1, major: 1, minor: 110 },
        loaded_from_build: BuildNumber::Build16(0x1234),
        allowed_commands: true,
        mods: vec![SaveHeaderMod {
            name: "base".to_string(),
            version: Version48 { main: 1, major: 1, minor: 110 },
            crc: 0xdead_beef,
        }],
    }
}

fn space_age_2_0() -> Vec<u8> {
    let mut b = vec![2u8, 0, 0, 0, 28, 0, 0, 0];
    b.push(0);
    put_text(&mut b, "freeplay");
    put_text(&mut b, "nauvis");
    put_text(&mut b, "base");
    b.push(0);
    b.extend_from_slice(&[0, 0]);
    put_text(&mut b, "next");
    b.extend_from_slice(&[0, 0, 0, 1]);
    b.extend_from_slice(&[2, 0, 255, 0x2c, 0x01]);
    b.extend_from_slice(&[0x78, 0x56, 0x34, 0x12]);
    b.push(0);
    b.extend_from_slice(&[0x00, 0x00, 0xa0, 0x00]);
    b.push(2);
    put_text(&mut b, "base");
    b.extend_from_slice(&[2, 0, 28]);
    b.extend_from_slice(&[1, 0, 0, 0]);
    put_text(&mut b, "space-age");
    b.extend_from_slice(&[2, 0, 28]);
    b.extend_from_slice(&[2, 0, 0, 0]);
    b
}

fn expected_2_0() -> SaveHeader {
    SaveHeader {
        factorio_version: Version { main: 2, major: 0, minor: 28, developer: 0 },
        campaign: "freeplay".to_string(),
        name: "nauvis".to_string(),
        base_mod: "base".to_string(),
        difficulty: 0,
        finished: false,
        player_won: false,
        next_level: "next".to_string(),
        can_continue: false,
        finished_but_continuing: false,
        saving_replay: false,
        allow_non_admin_debug_options: true,
        loaded_from: Version48 { main: 2, major: 0, minor: 300 },
        loaded_from_build: BuildNumber::Build32(0x1234_5678),
        allowed_commands: false,
        mods: vec![
            SaveHeaderMod {
                name: "base".to_string(),
                version: Version48 { main: 2, major: 0, minor: 28 },
                crc: 1,
            },
            SaveHeaderMod {
                name: "space-age".to_string(),
                version: Version48 { main: 2, major: 0, minor: 28 },
                crc: 2,
            },
        ],
    }
}

#[test]
fn a_header_of_main_version_one_has_a_16_bit_build_and_no_reserved_bytes() {
    assert_eq!(SaveHeader::try_from(vanilla_1_1().as_ref()), Ok(expected_1_1()));
}

#[test]
fn a_header_of_main_version_two_has_a_32_bit_build_and_four_reserved_bytes() {
    assert_eq!(SaveHeader::try_from(space_age_2_0().as_ref()), Ok(expected_2_0()));
}

#[test]
fn the_reserved_bytes_are_not_looked_at() {
    let mut bytes = space_age_2_0();
    let at = bytes
        .windows(4)
        .position(|w| w == [0x00, 0x00, 0xa0, 0x00])
        .unwrap();
    bytes[at..at + 4].copy_from_slice(&[9, 8, 7, 6]);
    assert_eq!(SaveHeader::try_from(bytes.as_ref()), Ok(expected_2_0()));
}

#[test]
fn a_header_of_main_version_zero_is_read_as_version_one_is() {
    let mut bytes = vanilla_1_1();
    bytes[0] = 0;
    let mut expected = expected_1_1();
    expected.factorio_version.main = 0;
    assert_eq!(SaveHeader::try_from(bytes.as_ref()), Ok(expected));
}

#[test]
fn a_header_of_a_later_main_version_is_read_as_version_two_is() {
    let mut bytes = space_age_2_0();
    bytes[0] = 3;
    let mut expected = expected_2_0();
    expected.factorio_version.main = 3;
    assert_eq!(SaveHeader::try_from(bytes.as_ref()), Ok(expected));
}

#[test]
fn what_follows_the_header_is_ignored() {
    let mut bytes = vanilla_1_1();
    bytes.extend_from_slice(&[1, 2, 3, 4, 5]);
    assert_eq!(SaveHeader::try_from(bytes.as_ref()), Ok(expected_1_1()));
}

#[test]
fn a_header_without_mods_decodes() {
    let mut bytes = vanilla_1_1();
    let keep = bytes.len() - (1 + 5 + 3 + 4);
    bytes.truncate(keep);
    bytes.push(0);
    let mut expected = expected_1_1();
    expected.mods.clear();
    assert_eq!(SaveHeader::try_from(bytes.as_ref()), Ok(expected));
}

#[test]
fn an_old_header_that_was_cut_short_is_refused_for_being_short() {
    let bytes = vanilla_1_1();
    for k in 0..bytes.len() {
        let r = SaveHeader::try_from(&bytes[..k]);
        assert!(
            r == Err(Error::Eof) || r == Err(Error::ByteSlicingError),
            "cut at {}: {:?}",
            k,
            r
        );
    }
}

#[test]
fn a_new_header_that_was_cut_short_is_refused_for_being_short() {
    let bytes = space_age_2_0();
    for k in 0..bytes.len() {
        let r = SaveHeader::try_from(&bytes[..k]);
        assert!(
            r == Err(Error::Eof) || r == Err(Error::ByteSlicingError),
            "cut at {}: {:?}",
            k,
            r
        );
    }
}

#[test]
fn a_header_cut_inside_the_reserved_bytes_is_eof() {
    let bytes = space_age_2_0();
    let at = bytes
        .windows(4)
        .position(|w| w == [0x00, 0x00, 0xa0, 0x00])
        .unwrap();
    assert_eq!(SaveHeader::try_from(&bytes[..at + 2]), Err(Error::Eof));
}

#[test]
fn a_name_that_is_not_utf8_is_refused() {
    let mut bytes = vanilla_1_1();
    bytes[10] = 0xff;
    assert!(matches!(SaveHeader::try_from(bytes.as_ref()), Err(Error::Utf8(_))));
}

#[test]
fn a_count_of_mods_beyond_the_buffer_is_refused() {
    let mut bytes = vanilla_1_1();
    let at = bytes.len() - (1 + 5 + 3 + 4);
    bytes[at] = 2;
    assert_eq!(SaveHeader::try_from(bytes.as_ref()), Err(Error::Eof));
}

#[test]
fn a_header_can_be_cloned() {
    let header = expected_2_0();
    assert_eq!(header.clone(), header);
}
