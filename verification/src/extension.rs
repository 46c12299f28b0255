//! Reads look only at the bytes they take: with more bytes behind the
//! buffer a read that ended well ends as before, and one that stopped for
//! another reason than a shortage of bytes stops as before.

use vstd::prelude::*;
use crate::grammar::{
    lemma_string_takes_bytes, prepend,
    take_bool, take_double, take_string, take_text, take_u16, take_u16_optim, take_u32,
    take_u32_optim, take_u8, take_version, take_version48, Parsed,
};

use crate::save_header::{
    is_wide_format, take_build, take_header_flags, take_header_front, take_header_origin,
    take_mod, take_mods, take_reserved, take_save_header,
};
use crate::tree::PropertyTreeType;
use crate::tree_format::{
    lemma_take_dict_items, lemma_take_list_items, take_dict_items, take_list_items, take_tree,
};

verus! {

/// The outcome `p` of a read, had `more` stood behind the buffer.
pub open spec fn with_more<T>(p: Parsed<T>, more: Seq<u8>) -> Parsed<T> {
    match p {
        Ok((v, rest)) => Ok((v, rest + more)),
        Err(f) => Err(f),
    }
}

/// The read ended well, or stopped for another reason than a shortage of
/// bytes.
pub open spec fn is_settled<T>(p: Parsed<T>) -> bool {
    match p {
        Ok(_) => true,
        Err(f) => !f.is_shortage(),
    }
}

/// Skipping or taking within the first of two joined sequences leaves the
/// second alone.
pub proof fn lemma_skip_of_longer(s: Seq<u8>, more: Seq<u8>, n: int)
    requires
        0 <= n <= s.len(),
    ensures
        (s + more).skip(n) == s.skip(n) + more,
        (s + more).take(n) == s.take(n),
{
    assert((s + more).skip(n) =~= s.skip(n) + more);
    assert((s + more).take(n) =~= s.take(n));
}

/// More bytes behind the buffer do not change the reading of a byte.
pub proof fn lemma_take_u8_with_more(s: Seq<u8>, more: Seq<u8>)
    ensures
        is_settled(take_u8(s)) ==> take_u8(s + more) == with_more(take_u8(s), more),
{
    if s.len() >= 1 {
        lemma_skip_of_longer(s, more, 1);
    }
}

/// More bytes behind the buffer do not change the reading of a boolean.
pub proof fn lemma_take_bool_with_more(s: Seq<u8>, more: Seq<u8>)
    ensures
        is_settled(take_bool(s)) ==> take_bool(s + more) == with_more(take_bool(s), more),
{
    lemma_take_u8_with_more(s, more);
}

/// More bytes behind the buffer do not change the reading of a 16-bit number.
pub proof fn lemma_take_u16_with_more(s: Seq<u8>, more: Seq<u8>)
    ensures
        is_settled(take_u16(s)) ==> take_u16(s + more) == with_more(take_u16(s), more),
{
    if s.len() >= 2 {
        lemma_skip_of_longer(s, more, 2);
    }
}

/// More bytes behind the buffer do not change the reading of a 32-bit number.
pub proof fn lemma_take_u32_with_more(s: Seq<u8>, more: Seq<u8>)
    ensures
        is_settled(take_u32(s)) ==> take_u32(s + more) == with_more(take_u32(s), more),
{
    if s.len() >= 4 {
        lemma_skip_of_longer(s, more, 4);
    }
}

/// More bytes behind the buffer do not change the reading of a double.
pub proof fn lemma_take_double_with_more(s: Seq<u8>, more: Seq<u8>)
    ensures
        is_settled(take_double(s)) ==> take_double(s + more) == with_more(take_double(s), more),
{
    if s.len() >= 8 {
        lemma_skip_of_longer(s, more, 8);
    }
}

/// More bytes behind the buffer do not change the reading of a 16-bit number in the space-saving form.
pub proof fn lemma_take_u16_optim_with_more(s: Seq<u8>, more: Seq<u8>)
    ensures
        is_settled(take_u16_optim(s)) ==> take_u16_optim(s + more) == with_more(
            take_u16_optim(s),
            more,
        ),
{
    lemma_take_u8_with_more(s, more);
    if s.len() >= 1 {
        lemma_take_u16_with_more(s.skip(1), more);
    }
}

/// More bytes behind the buffer do not change the reading of a 32-bit number in the space-saving form.
pub proof fn lemma_take_u32_optim_with_more(s: Seq<u8>, more: Seq<u8>)
    ensures
        is_settled(take_u32_optim(s)) ==> take_u32_optim(s + more) == with_more(
            take_u32_optim(s),
            more,
        ),
{
    lemma_take_u8_with_more(s, more);
    if s.len() >= 1 {
        lemma_take_u32_with_more(s.skip(1), more);
    }
}

/// More bytes behind the buffer do not change the reading of a length and its bytes of text.
pub proof fn lemma_take_text_with_more(s: Seq<u8>, more: Seq<u8>)
    ensures
        is_settled(take_text(s)) ==> take_text(s + more) == with_more(take_text(s), more),
{
    reveal(take_text);
    lemma_take_u32_optim_with_more(s, more);
    if let Ok((len, rest)) = take_u32_optim(s) {
        if rest.len() >= len {
            lemma_skip_of_longer(rest, more, len as int);
        }
    }
}

/// More bytes behind the buffer do not change the reading of a string in either convention.
pub proof fn lemma_take_string_with_more(s: Seq<u8>, has_empty_indicator: bool, more: Seq<u8>)
    ensures
        is_settled(take_string(s, has_empty_indicator)) ==> take_string(
            s + more,
            has_empty_indicator,
        ) == with_more(take_string(s, has_empty_indicator), more),
{
    if has_empty_indicator {
        lemma_take_bool_with_more(s, more);
        if let Ok((_, rest)) = take_bool(s) {
            lemma_take_text_with_more(rest, more);
        }
    } else {
        lemma_take_text_with_more(s, more);
    }
}

/// More bytes behind the buffer do not change the reading of a full version.
pub proof fn lemma_take_version_with_more(s: Seq<u8>, more: Seq<u8>)
    ensures
        is_settled(take_version(s)) ==> take_version(s + more) == with_more(take_version(s), more),
{
    lemma_take_u16_with_more(s, more);
    if let Ok((_, r1)) = take_u16(s) {
        lemma_take_u16_with_more(r1, more);
        if let Ok((_, r2)) = take_u16(r1) {
            lemma_take_u16_with_more(r2, more);
            if let Ok((_, r3)) = take_u16(r2) {
                lemma_take_u16_with_more(r3, more);
            }
        }
    }
}

/// More bytes behind the buffer do not change the reading of a compact version.
pub proof fn lemma_take_version48_with_more(s: Seq<u8>, more: Seq<u8>)
    ensures
        is_settled(take_version48(s)) ==> take_version48(s + more) == with_more(
            take_version48(s),
            more,
        ),
{
    lemma_take_u16_optim_with_more(s, more);
    if let Ok((_, r1)) = take_u16_optim(s) {
        lemma_take_u16_optim_with_more(r1, more);
        if let Ok((_, r2)) = take_u16_optim(r1) {
            lemma_take_u16_optim_with_more(r2, more);
        }
    }
}

/// Putting items in front and putting bytes behind do not depend on their
/// order.
pub proof fn lemma_prepend_with_more<T>(head: Seq<T>, p: Parsed<Seq<T>>, more: Seq<u8>)
    ensures
        with_more(prepend(head, p), more) == prepend(head, with_more(p, more)),
{
}

/// More bytes behind the buffer do not change the reading of a tree.
pub proof fn lemma_take_tree_with_more(s: Seq<u8>, more: Seq<u8>)
    ensures
        is_settled(take_tree(s)) ==> take_tree(s + more) == with_more(take_tree(s), more),
    decreases s.len(), 0nat,
{
    reveal(take_tree);
    lemma_take_u8_with_more(s, more);
    if let Ok((tag, after_tag)) = take_u8(s) {
        if let Some(kind) = PropertyTreeType::of_tag(tag) {
            lemma_take_bool_with_more(after_tag, more);
            if let Ok((_, body)) = take_bool(after_tag) {
                match kind {
                    PropertyTreeType::Nil => {},
                    PropertyTreeType::Bool => {
                        lemma_take_bool_with_more(body, more);
                    },
                    PropertyTreeType::Number => {
                        lemma_take_double_with_more(body, more);
                    },
                    PropertyTreeType::String => {
                        lemma_take_string_with_more(body, true, more);
                    },
                    PropertyTreeType::List => {
                        lemma_take_u32_with_more(body, more);
                        if let Ok((count, items)) = take_u32(body) {
                            lemma_take_list_items_with_more(items, count as nat, more);
                        }
                    },
                    PropertyTreeType::Dictionary => {
                        lemma_take_u32_with_more(body, more);
                        if let Ok((count, items)) = take_u32(body) {
                            lemma_take_dict_items_with_more(items, count as nat, more);
                        }
                    },
                }
            }
        }
    }
}

/// More bytes behind the buffer do not change the reading of the items of a list.
pub proof fn lemma_take_list_items_with_more(s: Seq<u8>, count: nat, more: Seq<u8>)
    ensures
        is_settled(take_list_items(s, count)) ==> take_list_items(s + more, count) == with_more(
            take_list_items(s, count),
            more,
        ),
    decreases s.len(), count + 1,
{
    lemma_take_list_items(s, count);
    lemma_take_list_items(s + more, count);
    if count > 0 {
        lemma_take_string_with_more(s, true, more);
        if let Ok((_, after_label)) = take_string(s, true) {
            lemma_string_takes_bytes(s, true);
            lemma_take_tree_with_more(after_label, more);
            if let Ok((item, rest)) = take_tree(after_label) {
                if rest.len() < s.len() {
                    lemma_take_list_items_with_more(rest, (count - 1) as nat, more);
                    lemma_prepend_with_more(
                        seq![item],
                        take_list_items(rest, (count - 1) as nat),
                        more,
                    );
                }
            }
        }
    }
}

/// More bytes behind the buffer do not change the reading of the pairs of a dictionary.
pub proof fn lemma_take_dict_items_with_more(s: Seq<u8>, count: nat, more: Seq<u8>)
    ensures
        is_settled(take_dict_items(s, count)) ==> take_dict_items(s + more, count) == with_more(
            take_dict_items(s, count),
            more,
        ),
    decreases s.len(), count + 1,
{
    lemma_take_dict_items(s, count);
    lemma_take_dict_items(s + more, count);
    if count > 0 {
        lemma_take_string_with_more(s, true, more);
        if let Ok((key, after_key)) = take_string(s, true) {
            lemma_string_takes_bytes(s, true);
            lemma_take_tree_with_more(after_key, more);
            if let Ok((value, rest)) = take_tree(after_key) {
                if rest.len() < s.len() {
                    lemma_take_dict_items_with_more(rest, (count - 1) as nat, more);
                    lemma_prepend_with_more(
                        seq![(key, value)],
                        take_dict_items(rest, (count - 1) as nat),
                        more,
                    );
                }
            }
        }
    }
}


/// More bytes behind the buffer do not change the reading of the fields that open a save header.
pub proof fn lemma_take_header_front_with_more(s: Seq<u8>, more: Seq<u8>)
    ensures
        is_settled(take_header_front(s)) ==> take_header_front(s + more) == with_more(
            take_header_front(s),
            more,
        ),
{
    lemma_take_version_with_more(s, more);
    if let Ok((_, r1)) = take_version(s) {
        lemma_take_bool_with_more(r1, more);
        if let Ok((_, r2)) = take_bool(r1) {
            lemma_take_string_with_more(r2, false, more);
            if let Ok((_, r3)) = take_string(r2, false) {
                lemma_take_string_with_more(r3, false, more);
                if let Ok((_, r4)) = take_string(r3, false) {
                    lemma_take_string_with_more(r4, false, more);
                    if let Ok((_, r5)) = take_string(r4, false) {
                        lemma_take_u8_with_more(r5, more);
                    }
                }
            }
        }
    }
}

/// More bytes behind the buffer do not change the reading of the flags of a save header.
pub proof fn lemma_take_header_flags_with_more(s: Seq<u8>, more: Seq<u8>)
    ensures
        is_settled(take_header_flags(s)) ==> take_header_flags(s + more) == with_more(
            take_header_flags(s),
            more,
        ),
{
    lemma_take_bool_with_more(s, more);
    if let Ok((_, r1)) = take_bool(s) {
        lemma_take_bool_with_more(r1, more);
        if let Ok((_, r2)) = take_bool(r1) {
            lemma_take_string_with_more(r2, false, more);
            if let Ok((_, r3)) = take_string(r2, false) {
                lemma_take_bool_with_more(r3, more);
                if let Ok((_, r4)) = take_bool(r3) {
                    lemma_take_bool_with_more(r4, more);
                    if let Ok((_, r5)) = take_bool(r4) {
                        lemma_take_bool_with_more(r5, more);
                        if let Ok((_, r6)) = take_bool(r5) {
                            lemma_take_bool_with_more(r6, more);
                        }
                    }
                }
            }
        }
    }
}

/// More bytes behind the buffer do not change the reading of a build number of either width.
pub proof fn lemma_take_build_with_more(s: Seq<u8>, wide: bool, more: Seq<u8>)
    ensures
        is_settled(take_build(s, wide)) ==> take_build(s + more, wide) == with_more(
            take_build(s, wide),
            more,
        ),
{
    lemma_take_u32_with_more(s, more);
    lemma_take_u16_with_more(s, more);
}

/// More bytes behind the buffer do not change the reading of the four reserved bytes.
pub proof fn lemma_take_reserved_with_more(s: Seq<u8>, more: Seq<u8>)
    ensures
        is_settled(take_reserved(s)) ==> take_reserved(s + more) == with_more(
            take_reserved(s),
            more,
        ),
{
    lemma_take_u8_with_more(s, more);
    if let Ok((_, r1)) = take_u8(s) {
        lemma_take_u8_with_more(r1, more);
        if let Ok((_, r2)) = take_u8(r1) {
            lemma_take_u8_with_more(r2, more);
            if let Ok((_, r3)) = take_u8(r2) {
                lemma_take_u8_with_more(r3, more);
            }
        }
    }
}

/// More bytes behind the buffer do not change the reading of the origin of a save.
pub proof fn lemma_take_header_origin_with_more(s: Seq<u8>, wide: bool, more: Seq<u8>)
    ensures
        is_settled(take_header_origin(s, wide)) ==> take_header_origin(s + more, wide)
            == with_more(take_header_origin(s, wide), more),
{
    lemma_take_version48_with_more(s, more);
    if let Ok((_, r1)) = take_version48(s) {
        lemma_take_build_with_more(r1, wide, more);
        if let Ok((_, r2)) = take_build(r1, wide) {
            lemma_take_bool_with_more(r2, more);
            if let Ok((_, r3)) = take_bool(r2) {
                lemma_take_reserved_with_more(r3, more);
            }
        }
    }
}

/// More bytes behind the buffer do not change the reading of one mod.
pub proof fn lemma_take_mod_with_more(s: Seq<u8>, more: Seq<u8>)
    ensures
        is_settled(take_mod(s)) ==> take_mod(s + more) == with_more(take_mod(s), more),
{
    lemma_take_string_with_more(s, false, more);
    if let Ok((_, r1)) = take_string(s, false) {
        lemma_take_version48_with_more(r1, more);
        if let Ok((_, r2)) = take_version48(r1) {
            lemma_take_u32_with_more(r2, more);
        }
    }
}

/// More bytes behind the buffer do not change the reading of a run of mods.
pub proof fn lemma_take_mods_with_more(s: Seq<u8>, count: nat, more: Seq<u8>)
    ensures
        is_settled(take_mods(s, count)) ==> take_mods(s + more, count) == with_more(
            take_mods(s, count),
            more,
        ),
    decreases count,
{
    if count > 0 {
        lemma_take_mod_with_more(s, more);
        if let Ok((first, rest)) = take_mod(s) {
            lemma_take_mods_with_more(rest, (count - 1) as nat, more);
            lemma_prepend_with_more(seq![first], take_mods(rest, (count - 1) as nat), more);
        }
    }
}

/// More bytes behind the buffer do not change the reading of a whole save header.
pub proof fn lemma_take_save_header_with_more(s: Seq<u8>, more: Seq<u8>)
    ensures
        is_settled(take_save_header(s)) ==> take_save_header(s + more) == with_more(
            take_save_header(s),
            more,
        ),
{
    lemma_take_header_front_with_more(s, more);
    if let Ok((front, r1)) = take_header_front(s) {
        lemma_take_header_flags_with_more(r1, more);
        if let Ok((_, r2)) = take_header_flags(r1) {
            lemma_take_header_origin_with_more(r2, is_wide_format(front.factorio_version), more);
            if let Ok((_, r3)) = take_header_origin(r2, is_wide_format(front.factorio_version)) {
                lemma_take_u32_optim_with_more(r3, more);
                if let Ok((count, r4)) = take_u32_optim(r3) {
                    lemma_take_mods_with_more(r4, count as nat, more);
                }
            }
        }
    }
}

} // verus!
