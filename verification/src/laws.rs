//! What holds of the records as wholes: settings survive a round of
//! encoding and decoding, bytes behind a record are noticed, and a buffer
//! that was cut short is refused for being short.

use vstd::prelude::*;
use vstd::utf8::encode_utf8;
use crate::error::Fault;
use crate::extension::{
    lemma_take_bool_with_more, lemma_take_save_header_with_more, lemma_take_tree_with_more,
    lemma_take_version_with_more,
};
use crate::save_header::{decode_save_header, take_build, take_reserved, take_save_header};
use crate::grammar::{
    lemma_string_takes_bytes, prepend, take_bool, take_string, take_u16, take_u32, take_version,
};
use crate::layout::{bool_bytes, string_bytes, u32_bytes, version_bytes};
use crate::mod_settings::{
    decode_mod_settings, encode_mod_settings, find_last, lemma_section_names_differ, top_level,
    ModSettingsModel,
};
use crate::round_trip::{
    lemma_take_bool_of_bytes, lemma_take_length_of_bytes, lemma_take_string_of_bytes,
    lemma_take_tree_of_bytes, lemma_take_version_of_bytes, lemma_tree_read_fits,
};
use crate::tree::{keys_differ, TreeModel};
use crate::tree_format::{
    lemma_take_dict_items, lemma_take_list_items, lemma_take_tree, take_dict_items,
    take_list_items, take_tree, text_fits, tree_bytes,
};
use crate::version::BuildNumber;

verus! {

impl ModSettingsModel {
    /// Whether every length in the three sections fits the 32 bits that
    /// the format gives it.
    pub open spec fn fits(self) -> bool {
        self.startup.fits() && self.runtime_global.fits() && self.runtime_per_user.fits()
    }
}

/// The names of the three sections are short.
pub proof fn lemma_section_names_fit()
    ensures
        text_fits("startup"@),
        text_fits("runtime-global"@),
        text_fits("runtime-per-user"@),
{
    reveal_strlit("startup");
    reveal_strlit("runtime-global");
    reveal_strlit("runtime-per-user");
    vstd::utf8::is_ascii_chars_encode_utf8("startup"@);
    vstd::utf8::is_ascii_chars_encode_utf8("runtime-global"@);
    vstd::utf8::is_ascii_chars_encode_utf8("runtime-per-user"@);
}

/// Decoding what was encoded gives the settings back, where every length
/// in them fits 32 bits.
pub proof fn lemma_decode_encode_mod_settings(m: ModSettingsModel)
    requires
        m.fits(),
    ensures
        decode_mod_settings(encode_mod_settings(m)) == Ok::<_, Fault>(m),
{
    let top = top_level(m);
    let pairs = top->Dictionary_0;
    let after_sentinel = tree_bytes(top) + Seq::<u8>::empty();
    let after_version = bool_bytes(false) + after_sentinel;
    assert(encode_mod_settings(m) =~= version_bytes(m.version) + after_version);
    lemma_take_version_of_bytes(m.version, after_version);
    lemma_take_bool_of_bytes(false, after_sentinel);
    lemma_section_names_fit();
    lemma_section_names_differ();
    assert(top.fits());
    lemma_take_tree_of_bytes(top, Seq::empty());
    assert(pairs.drop_last().drop_last().drop_last().len() == 0);
    reveal_with_fuel(find_last, 4);
    assert(find_last(pairs, "runtime-per-user"@) == Some(m.runtime_per_user));
    assert(find_last(pairs, "runtime-global"@) == Some(m.runtime_global));
    assert(find_last(pairs, "startup"@) == Some(m.startup));
}

/// Where each key stands once, the value under the key of a pair is the
/// value of that pair.
pub proof fn lemma_found_where_keys_differ(pairs: Seq<(Seq<char>, TreeModel)>, i: int)
    requires
        keys_differ(pairs),
        0 <= i < pairs.len(),
    ensures
        find_last(pairs, pairs[i].0) == Some(pairs[i].1),
    decreases pairs.len(),
{
    if i < pairs.len() - 1 {
        assert(pairs.last() == pairs[pairs.len() - 1]);
        let front = pairs.drop_last();
        assert forall|a: int, b: int| 0 <= a < b < front.len() implies (#[trigger] front[a]).0 != (
        #[trigger] front[b]).0 by {
            assert(front[a] == pairs[a] && front[b] == pairs[b]);
        }
        lemma_found_where_keys_differ(front, i);
    }
}

/// In the dictionary that the encoder writes each key stands once, where
/// that holds of the three sections.
pub proof fn lemma_top_level_keys_unique(m: ModSettingsModel)
    requires
        m.startup.keys_unique(),
        m.runtime_global.keys_unique(),
        m.runtime_per_user.keys_unique(),
    ensures
        top_level(m).keys_unique(),
{
    lemma_section_names_differ();
}

/// A value that was found under a key is the value of one of the pairs.
pub proof fn lemma_found_is_a_value(pairs: Seq<(Seq<char>, TreeModel)>, key: Seq<char>)
    ensures
        find_last(pairs, key) matches Some(value) ==> exists|i: int|
            0 <= i < pairs.len() && (#[trigger] pairs[i]).1 == value,
    decreases pairs.len(),
{
    if pairs.len() > 0 {
        if pairs.last().0 == key {
            assert(pairs[pairs.len() - 1].1 == pairs.last().1);
        } else {
            lemma_found_is_a_value(pairs.drop_last(), key);
            if let Some(value) = find_last(pairs.drop_last(), key) {
                let i = choose|i: int|
                    0 <= i < pairs.drop_last().len() && (#[trigger] pairs.drop_last()[i]).1
                        == value;
                assert(pairs[i].1 == value);
            }
        }
    }
}

/// Every length in settings that were decoded fits 32 bits.
pub proof fn lemma_decoded_mod_settings_fit(bytes: Seq<u8>)
    ensures
        decode_mod_settings(bytes) matches Ok(m) ==> m.fits(),
{
    if let Ok(m) = decode_mod_settings(bytes) {
        let (version, r1) = take_version(bytes)->Ok_0;
        let (_, r2) = take_bool(r1)->Ok_0;
        let (tree, _) = take_tree(r2)->Ok_0;
        let pairs = tree->Dictionary_0;
        lemma_tree_read_fits(r2);
        lemma_found_is_a_value(pairs, "startup"@);
        lemma_found_is_a_value(pairs, "runtime-global"@);
        lemma_found_is_a_value(pairs, "runtime-per-user"@);
    }
}

/// Settings that were decoded from any buffer survive encoding and
/// decoding unchanged: after one round the settings and their bytes stay
/// what they are.
pub proof fn lemma_mod_settings_stable(bytes: Seq<u8>)
    ensures
        decode_mod_settings(bytes) matches Ok(m) ==> decode_mod_settings(encode_mod_settings(m))
            == Ok::<_, Fault>(m),
{
    if let Ok(m) = decode_mod_settings(bytes) {
        lemma_decoded_mod_settings_fit(bytes);
        lemma_decode_encode_mod_settings(m);
    }
}

/// Of a buffer that the encoder made and that decodes: what it decodes to
/// encodes to bytes that decode to the same settings, and these encode to
/// the same bytes again.
pub proof fn lemma_second_round_changes_nothing(first: ModSettingsModel)
    requires
        decode_mod_settings(encode_mod_settings(first)) is Ok,
    ensures
        ({
            let decoded = decode_mod_settings(encode_mod_settings(first))->Ok_0;
            let second = encode_mod_settings(decoded);
            &&& decode_mod_settings(second) == Ok::<_, Fault>(decoded)
            &&& encode_mod_settings(decode_mod_settings(second)->Ok_0) == second
        }),
{
    lemma_mod_settings_stable(encode_mod_settings(first));
}

/// With bytes behind the buffer, settings that decoded are refused for
/// their trailing bytes, and a buffer that was refused for another reason
/// than a shortage of bytes is refused as before.
pub proof fn lemma_decode_mod_settings_with_more(bytes: Seq<u8>, more: Seq<u8>)
    requires
        more.len() > 0,
    ensures
        match decode_mod_settings(bytes) {
            Ok(_) => decode_mod_settings(bytes + more) == Err::<ModSettingsModel, Fault>(
                Fault::TrailingBytes,
            ),
            Err(f) => !f.is_shortage() ==> decode_mod_settings(bytes + more) == Err::<
                ModSettingsModel,
                Fault,
            >(f),
        },
{
    lemma_take_version_with_more(bytes, more);
    if let Ok((_, r1)) = take_version(bytes) {
        lemma_take_bool_with_more(r1, more);
        if let Ok((sentinel, r2)) = take_bool(r1) {
            if !sentinel {
                lemma_take_tree_with_more(r2, more);
            }
        }
    }
}

/// One byte or more behind a buffer of settings is refused as trailing.
pub proof fn lemma_trailing_bytes_refused(bytes: Seq<u8>, more: Seq<u8>)
    requires
        decode_mod_settings(bytes) is Ok,
        more.len() > 0,
    ensures
        decode_mod_settings(bytes + more) == Err::<ModSettingsModel, Fault>(Fault::TrailingBytes),
{
    lemma_decode_mod_settings_with_more(bytes, more);
}

/// A buffer of settings that was cut short anywhere is refused for a
/// shortage of bytes.
pub proof fn lemma_truncated_mod_settings_refused(bytes: Seq<u8>, k: int)
    requires
        decode_mod_settings(bytes) is Ok,
        0 <= k < bytes.len(),
    ensures
        decode_mod_settings(bytes.take(k)) matches Err(f) && f.is_shortage(),
{
    assert(bytes.take(k) + bytes.skip(k) =~= bytes);
    lemma_decode_mod_settings_with_more(bytes.take(k), bytes.skip(k));
}

/// Where the top-level dictionary holds the first two sections and lacks
/// `runtime-per-user`, the buffer is refused with a complaint that names
/// that section, whatever follows the dictionary.
pub proof fn lemma_missing_per_user_named(bytes: Seq<u8>)
    requires
        take_version(bytes) is Ok,
        take_bool(take_version(bytes)->Ok_0.1) matches Ok((sentinel, _)) && !sentinel,
        take_tree(take_bool(take_version(bytes)->Ok_0.1)->Ok_0.1) matches Ok((tree, _))
            && tree is Dictionary && find_last(tree->Dictionary_0, "startup"@) is Some
            && find_last(tree->Dictionary_0, "runtime-global"@) is Some && find_last(
            tree->Dictionary_0,
            "runtime-per-user"@,
        ) is None,
    ensures
        decode_mod_settings(bytes) == Err::<ModSettingsModel, Fault>(
            Fault::Syntax("Settings section 'runtime-per-user' missing"@),
        ),
{
}

/// A first byte of 6 or above names no kind of tree.
pub proof fn lemma_unknown_kind_refused(s: Seq<u8>)
    requires
        s.len() > 0,
        s[0] >= 6,
    ensures
        take_tree(s) == Err::<(TreeModel, Seq<u8>), Fault>(Fault::OutOfRange),
{
    lemma_take_tree(s);
}

/// A string of 1 to 254 bytes is written with its length in one byte, and
/// comes back.
pub proof fn lemma_short_string(text: Seq<char>, rest: Seq<u8>)
    requires
        0 < encode_utf8(text).len() < 255,
    ensures
        string_bytes(text) == seq![0u8, encode_utf8(text).len() as u8] + encode_utf8(text),
        take_string(string_bytes(text) + rest, true) == Ok::<_, Fault>((text, rest)),
{
    if text.len() == 0 {
        assert(text =~= Seq::empty());
        assert(encode_utf8(text).len() == 0);
    }
    assert(string_bytes(text) =~= seq![0u8, encode_utf8(text).len() as u8] + encode_utf8(text));
    lemma_take_string_of_bytes(text, rest);
}

/// A string of 255 bytes or more, up to what 32 bits can count, is written
/// with the byte 255 and its length in four bytes, and comes back.
pub proof fn lemma_long_string(text: Seq<char>, rest: Seq<u8>)
    requires
        255 <= encode_utf8(text).len() <= u32::MAX,
    ensures
        string_bytes(text) == seq![0u8, 255u8] + u32_bytes(encode_utf8(text).len() as u32)
            + encode_utf8(text),
        take_string(string_bytes(text) + rest, true) == Ok::<_, Fault>((text, rest)),
{
    if text.len() == 0 {
        assert(text =~= Seq::empty());
        assert(encode_utf8(text).len() == 0);
    }
    lemma_take_length_of_bytes(encode_utf8(text).len(), rest);
    assert(string_bytes(text) =~= seq![0u8, 255u8] + u32_bytes(encode_utf8(text).len() as u32)
        + encode_utf8(text));
    lemma_take_string_of_bytes(text, rest);
}

/// A buffer that was cut short inside a tree is refused for a shortage of
/// bytes.
pub proof fn lemma_truncated_tree_refused(bytes: Seq<u8>, k: int)
    requires
        take_tree(bytes) is Ok,
        0 <= k < bytes.len() - take_tree(bytes)->Ok_0.1.len(),
    ensures
        take_tree(bytes.take(k)) matches Err(f) && f.is_shortage(),
{
    assert(bytes.take(k) + bytes.skip(k) =~= bytes);
    lemma_take_tree_with_more(bytes.take(k), bytes.skip(k));
}

/// A buffer that was cut short inside a save header is refused for a
/// shortage of bytes.
pub proof fn lemma_truncated_save_header_refused(bytes: Seq<u8>, k: int)
    requires
        take_save_header(bytes) is Ok,
        0 <= k < bytes.len() - take_save_header(bytes)->Ok_0.1.len(),
    ensures
        decode_save_header(bytes.take(k)) matches Err(f) && f.is_shortage(),
{
    assert(bytes.take(k) + bytes.skip(k) =~= bytes);
    lemma_take_save_header_with_more(bytes.take(k), bytes.skip(k));
}

/// What stands behind a save header does not change what it decodes to.
pub proof fn lemma_save_header_ignores_what_follows(bytes: Seq<u8>, more: Seq<u8>)
    requires
        decode_save_header(bytes) is Ok,
    ensures
        decode_save_header(bytes + more) == decode_save_header(bytes),
{
    lemma_take_save_header_with_more(bytes, more);
}

/// The items of a list are read one after the other: the tests on the
/// lengths in [`take_list_items`] never fail.
pub proof fn lemma_list_items_one_by_one(s: Seq<u8>, count: nat)
    requires
        count > 0,
    ensures
        take_list_items(s, count) == match take_string(s, true) {
            Err(f) => Err(f),
            Ok((_, after_label)) => match take_tree(after_label) {
                Err(f) => Err(f),
                Ok((item, rest)) => prepend(seq![item], take_list_items(rest, (count - 1) as nat)),
            },
        },
{
    lemma_take_list_items(s, count);
    lemma_string_takes_bytes(s, true);
    if let Ok((_, after_label)) = take_string(s, true) {
        lemma_tree_read_fits(after_label);
    }
}

/// The pairs of a dictionary are read one after the other: the tests on
/// the lengths in [`take_dict_items`] never fail.
pub proof fn lemma_dict_items_one_by_one(s: Seq<u8>, count: nat)
    requires
        count > 0,
    ensures
        take_dict_items(s, count) == match take_string(s, true) {
            Err(f) => Err(f),
            Ok((key, after_key)) => match take_tree(after_key) {
                Err(f) => Err(f),
                Ok((value, rest)) => prepend(
                    seq![(key, value)],
                    take_dict_items(rest, (count - 1) as nat),
                ),
            },
        },
{
    lemma_take_dict_items(s, count);
    lemma_string_takes_bytes(s, true);
    if let Ok((_, after_key)) = take_string(s, true) {
        lemma_tree_read_fits(after_key);
    }
}

/// The version of the file decides the width of the build number: four
/// bytes in the wide format, two otherwise.
pub proof fn lemma_build_width(s: Seq<u8>, wide: bool)
    ensures
        wide ==> take_build(s, wide) == match take_u32(s) {
            Err(f) => Err(f),
            Ok((build, rest)) => Ok((BuildNumber::Build32(build), rest)),
        },
        !wide ==> take_build(s, wide) == match take_u16(s) {
            Err(f) => Err(f),
            Ok((build, rest)) => Ok((BuildNumber::Build16(build), rest)),
        },
        take_build(s, wide) matches Ok((_, rest)) ==> rest == s.skip(if wide { 4int } else { 2int }),
{
}

/// The reserved bytes of the wide format are four, whatever they hold.
pub proof fn lemma_reserved_is_four_bytes(s: Seq<u8>)
    ensures
        s.len() >= 4 ==> take_reserved(s) == Ok::<_, Fault>(((), s.skip(4))),
        s.len() < 4 ==> take_reserved(s) == Err::<((), Seq<u8>), Fault>(Fault::Eof),
{
    if s.len() >= 4 {
        assert(s.skip(1).skip(1).skip(1).skip(1) =~= s.skip(4));
    }
}

} // verus!
