use std::convert::TryInto;

use factorio_file_parser::{Deserialiser, Error, PropertyTree, PropertyTreeType, Serialiser};

fn encode(tree: PropertyTree) -> Vec<u8> {
    let mut s = Serialiser::new();
    s.write_property_tree(tree).unwrap();
    s.bytes
}

fn decode(bytes: &[u8]) -> Result<PropertyTree, Error> {
    Deserialiser::new(bytes).parse_property_tree()
}

fn sample() -> PropertyTree {
    PropertyTree::Dictionary(vec![
        ("zeta".to_string(), PropertyTree::Bool(true)),
        (
            "alpha".to_string(),
            PropertyTree::List(vec![
                PropertyTree::Nil,
                PropertyTree::Number(12.5f64.to_bits()),
                PropertyTree::String("x".repeat(300)),
                PropertyTree::Dictionary(vec![]),
            ]),
        ),
        (String::new(), PropertyTree::String(String::new())),
    ])
}

#[test]
fn can_convert_between_byte_and_propertytreetype() {
    let bytes: Vec<u8> = (0..6).collect();
    for b in bytes {
        let r = b.try_into();
        assert!(r.is_ok());
        let t: PropertyTreeType = r.unwrap();
        let r2 = t.try_into();
        assert!(r2.is_ok());
        assert_eq!(b, r2.unwrap());
    }
}

#[test]
fn a_byte_of_six_or_more_names_no_kind() {
    for b in [6u8, 7, 100, 255] {
        let r: Result<PropertyTreeType, Error> = b.try_into();
        assert_eq!(r, Err(Error::OutOfRange));
    }
}

#[test]
fn each_kind_has_its_byte() {
    let kinds = [
        (PropertyTreeType::Nil, 0u8),
        (PropertyTreeType::Bool, 1),
        (PropertyTreeType::Number, 2),
        (PropertyTreeType::String, 3),
        (PropertyTreeType::List, 4),
        (PropertyTreeType::Dictionary, 5),
    ];
    for (kind, byte) in kinds {
        let got: Result<u8, Error> = kind.try_into();
        assert_eq!(got, Ok(byte));
        let back: Result<PropertyTreeType, Error> = byte.try_into();
        assert_eq!(back, Ok(kind));
    }
}

#[test]
fn decodes_the_empty_tree() {
    assert_eq!(decode(&[0, 0]), Ok(PropertyTree::Nil));
}

#[test]
fn decodes_a_boolean() {
    assert_eq!(decode(&[1, 0, 1]), Ok(PropertyTree::Bool(true)));
    assert_eq!(decode(&[1, 0, 0]), Ok(PropertyTree::Bool(false)));
    assert_eq!(decode(&[1, 0, 2]), Ok(PropertyTree::Bool(false)));
}

#[test]
fn decodes_a_number() {
    let mut bytes = vec![2u8, 0];
    bytes.extend_from_slice(&0.1f64.to_le_bytes());
    assert_eq!(decode(&bytes), Ok(PropertyTree::Number(0.1f64.to_bits())));
}

#[test]
fn decodes_a_string() {
    assert_eq!(decode(&[3, 0, 0, 2, b'o', b'k']), Ok(PropertyTree::String("ok".to_string())));
    assert_eq!(decode(&[3, 0, 1]), Ok(PropertyTree::String(String::new())));
}

#[test]
fn decodes_a_list_and_passes_over_its_labels() {
    let bytes = [4u8, 0, 2, 0, 0, 0, 0, 1, b'L', 1, 0, 1, 1, 0, 0];
    assert_eq!(
        decode(&bytes),
        Ok(PropertyTree::List(vec![PropertyTree::Bool(true), PropertyTree::Nil]))
    );
}

#[test]
fn decodes_a_dictionary_in_the_order_of_the_bytes() {
    let bytes = [
        5u8, 0, 2, 0, 0, 0, 0, 1, b'b', 1, 0, 1, 0, 1, b'a', 0, 0,
    ];
    assert_eq!(
        decode(&bytes),
        Ok(PropertyTree::Dictionary(vec![
            ("b".to_string(), PropertyTree::Bool(true)),
            ("a".to_string(), PropertyTree::Nil),
        ]))
    );
}

#[test]
fn the_byte_after_the_kind_is_passed_over() {
    assert_eq!(decode(&[0, 1]), Ok(PropertyTree::Nil));
    assert_eq!(decode(&[1, 77, 1]), Ok(PropertyTree::Bool(true)));
}

#[test]
fn a_kind_of_six_or_above_is_out_of_range() {
    assert_eq!(decode(&[6, 0]), Err(Error::OutOfRange));
    assert_eq!(decode(&[6, 0, 1, 2, 3]), Err(Error::OutOfRange));
    assert_eq!(decode(&[200, 0]), Err(Error::OutOfRange));
    assert_eq!(decode(&[255]), Err(Error::OutOfRange));
    assert_eq!(decode(&[6]), Err(Error::OutOfRange));
}

#[test]
fn a_kind_of_six_inside_a_list_is_out_of_range() {
    let bytes = [4u8, 0, 1, 0, 0, 0, 1, 9, 0];
    assert_eq!(decode(&bytes), Err(Error::OutOfRange));
}

#[test]
fn an_empty_buffer_is_eof() {
    assert_eq!(decode(&[]), Err(Error::Eof));
    assert_eq!(decode(&[0]), Err(Error::Eof));
}

#[test]
fn a_list_that_announces_more_than_it_holds_is_refused() {
    let bytes = [4u8, 0, 0xff, 0xff, 0xff, 0xff, 1, 0, 0];
    assert_eq!(decode(&bytes), Err(Error::Eof));
}

#[test]
fn a_string_in_a_tree_that_is_not_utf8_is_refused() {
    assert!(matches!(decode(&[3, 0, 0, 1, 0x80]), Err(Error::Utf8(_))));
}

#[test]
fn decoding_leaves_what_follows() {
    let bytes = [1u8, 0, 1, 42, 43];
    let mut d = Deserialiser::new(&bytes);
    assert_eq!(d.parse_property_tree(), Ok(PropertyTree::Bool(true)));
    assert_eq!(d.remaining(), &[42u8, 43][..]);
}

#[test]
fn encodes_the_empty_tree() {
    assert_eq!(encode(PropertyTree::Nil), vec![0u8, 0]);
}

#[test]
fn encodes_a_boolean() {
    assert_eq!(encode(PropertyTree::Bool(true)), vec![1u8, 0, 1]);
    assert_eq!(encode(PropertyTree::Bool(false)), vec![1u8, 0, 0]);
}

#[test]
fn encodes_a_number() {
    let mut expected = vec![2u8, 0];
    expected.extend_from_slice(&3.75f64.to_le_bytes());
    assert_eq!(encode(PropertyTree::Number(3.75f64.to_bits())), expected);
}

#[test]
fn encodes_a_string() {
    assert_eq!(encode(PropertyTree::String("ok".to_string())), vec![3u8, 0, 0, 2, b'o', b'k']);
    assert_eq!(encode(PropertyTree::String(String::new())), vec![3u8, 0, 1]);
}

#[test]
fn encodes_a_list_with_empty_labels() {
    let tree = PropertyTree::List(vec![PropertyTree::Bool(true), PropertyTree::Nil]);
    assert_eq!(encode(tree), vec![4u8, 0, 2, 0, 0, 0, 1, 1, 0, 1, 1, 0, 0]);
}

#[test]
fn encodes_an_empty_list() {
    assert_eq!(encode(PropertyTree::List(vec![])), vec![4u8, 0, 0, 0, 0, 0]);
}

#[test]
fn encodes_a_dictionary_in_the_order_given() {
    let tree = PropertyTree::Dictionary(vec![
        ("b".to_string(), PropertyTree::Bool(true)),
        ("a".to_string(), PropertyTree::Nil),
    ]);
    assert_eq!(
        encode(tree),
        vec![5u8, 0, 2, 0, 0, 0, 0, 1, b'b', 1, 0, 1, 0, 1, b'a', 0, 0]
    );
}

#[test]
fn encoding_appends_to_what_was_written() {
    let mut s = Serialiser::new();
    s.write_u8(9);
    assert_eq!(s.write_property_tree(PropertyTree::Nil), Ok(()));
    assert_eq!(s.bytes, vec![9u8, 0, 0]);
}

#[test]
fn a_tree_comes_back_as_written() {
    let bytes = encode(sample());
    assert_eq!(decode(&bytes), Ok(sample()));
}

#[test]
fn a_tree_that_was_cut_short_is_refused_for_being_short() {
    let bytes = encode(sample());
    for k in 0..bytes.len() {
        let r = decode(&bytes[..k]);
        assert!(
            r == Err(Error::Eof) || r == Err(Error::ByteSlicingError),
            "cut at {}: {:?}",
            k,
            r
        );
    }
}

#[test]
fn a_tree_with_bytes_behind_it_decodes_as_before() {
    let mut bytes = encode(sample());
    let len = bytes.len();
    bytes.extend_from_slice(&[1, 2, 3]);
    let mut d = Deserialiser::new(&bytes);
    assert_eq!(d.parse_property_tree(), Ok(sample()));
    assert_eq!(d.remaining(), &bytes[len..]);
}

#[test]
fn a_clone_equals_what_it_was_made_from() {
    let tree = sample();
    assert_eq!(tree.clone(), tree);
    assert_eq!(encode(tree.clone()), encode(tree));
}
