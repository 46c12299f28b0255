//! Reading back what was written gives the value that was written.

use vstd::prelude::*;
use vstd::utf8::encode_utf8;
use crate::error::Fault;
use crate::grammar::{
    take_bool, take_double, take_string, take_text, take_u16, take_u32, take_u32_optim, take_u8,
    take_version,
};
use crate::layout::{
    bool_bytes, lemma_u16_of_bytes, lemma_u32_of_bytes, lemma_u64_of_bytes, length_bytes,
    string_bytes, u16_bytes, u32_bytes, u64_bytes, version_bytes,
};
use crate::tree::TreeModel;
use crate::tree_format::{
    dict_items_bytes, lemma_take_dict_items, lemma_take_list_items, lemma_take_tree,
    list_items_bytes, take_dict_items, take_list_items, take_tree, text_fits, tree_bytes,
};
use crate::version::Version;

verus! {

/// A byte comes back as it was written.
pub proof fn lemma_take_u8_of_byte(b: u8, rest: Seq<u8>)
    ensures
        take_u8(seq![b] + rest) == Ok::<_, Fault>((b, rest)),
{
    assert((seq![b] + rest).skip(1) =~= rest);
}

/// A boolean comes back as it was written.
pub proof fn lemma_take_bool_of_bytes(b: bool, rest: Seq<u8>)
    ensures
        take_bool(bool_bytes(b) + rest) == Ok::<_, Fault>((b, rest)),
{
    assert((bool_bytes(b) + rest).skip(1) =~= rest);
}

/// A 16-bit number comes back as it was written.
pub proof fn lemma_take_u16_of_bytes(v: u16, rest: Seq<u8>)
    ensures
        take_u16(u16_bytes(v) + rest) == Ok::<_, Fault>((v, rest)),
{
    lemma_u16_of_bytes(v);
    assert((u16_bytes(v) + rest).skip(2) =~= rest);
}

/// A 32-bit number comes back as it was written.
pub proof fn lemma_take_u32_of_bytes(v: u32, rest: Seq<u8>)
    ensures
        take_u32(u32_bytes(v) + rest) == Ok::<_, Fault>((v, rest)),
{
    lemma_u32_of_bytes(v);
    assert((u32_bytes(v) + rest).skip(4) =~= rest);
}

/// The bits of a double come back as they were written.
pub proof fn lemma_take_double_of_bytes(bits: u64, rest: Seq<u8>)
    ensures
        take_double(u64_bytes(bits) + rest) == Ok::<_, Fault>((bits, rest)),
{
    lemma_u64_of_bytes(bits);
    assert((u64_bytes(bits) + rest).skip(8) =~= rest);
}

/// A length below 255 comes back from its one byte, a longer one from the
/// byte 255 and its four bytes.
pub proof fn lemma_take_length_of_bytes(n: nat, rest: Seq<u8>)
    requires
        n <= u32::MAX,
    ensures
        take_u32_optim(length_bytes(n) + rest) == Ok::<_, Fault>((n as u32, rest)),
        n < 255 ==> length_bytes(n) == seq![n as u8],
        n >= 255 ==> length_bytes(n) == seq![255u8] + u32_bytes(n as u32),
{
    if n < 255 {
        assert((length_bytes(n) + rest).skip(1) =~= rest);
    } else {
        let tail = u32_bytes(n as u32) + rest;
        assert(length_bytes(n) + rest =~= seq![255u8] + tail);
        lemma_take_u8_of_byte(255u8, tail);
        lemma_take_u32_of_bytes(n as u32, rest);
    }
}

/// A string in the convention of property trees comes back as it was
/// written.
pub proof fn lemma_take_string_of_bytes(text: Seq<char>, rest: Seq<u8>)
    requires
        text_fits(text),
    ensures
        take_string(string_bytes(text) + rest, true) == Ok::<_, Fault>((text, rest)),
{
    reveal(take_text);
    if text.len() == 0 {
        assert(text =~= Seq::empty());
        assert((string_bytes(text) + rest).skip(1) =~= rest);
    } else {
        let utf8 = encode_utf8(text);
        let n = utf8.len();
        let body = length_bytes(n) + (utf8 + rest);
        assert(string_bytes(text) + rest =~= seq![0u8] + body);
        lemma_take_u8_of_byte(0u8, body);
        lemma_take_length_of_bytes(n, utf8 + rest);
        assert((utf8 + rest).take(n as int) =~= utf8);
        assert((utf8 + rest).skip(n as int) =~= rest);
        vstd::utf8::encode_utf8_valid_utf8(text);
        vstd::utf8::encode_utf8_decode_utf8(text);
    }
}

/// A version comes back as it was written.
pub proof fn lemma_take_version_of_bytes(v: Version, rest: Seq<u8>)
    ensures
        take_version(version_bytes(v) + rest) == Ok::<_, Fault>((v, rest)),
{
    let r3 = u16_bytes(v.developer) + rest;
    let r2 = u16_bytes(v.minor) + r3;
    let r1 = u16_bytes(v.major) + r2;
    assert(version_bytes(v) + rest =~= u16_bytes(v.main) + r1);
    lemma_take_u16_of_bytes(v.main, r1);
    lemma_take_u16_of_bytes(v.major, r2);
    lemma_take_u16_of_bytes(v.minor, r3);
    lemma_take_u16_of_bytes(v.developer, rest);
}

/// The two bytes that open a tree: the byte of its kind and the byte 0.
pub proof fn lemma_take_tree_header(tag: u8, content: Seq<u8>)
    ensures
        take_u8(seq![tag, 0u8] + content) == Ok::<_, Fault>((tag, seq![0u8] + content)),
        take_bool(seq![0u8] + content) == Ok::<_, Fault>((false, content)),
{
    assert((seq![tag, 0u8] + content).skip(1) =~= seq![0u8] + content);
    assert((seq![0u8] + content).skip(1) =~= content);
}

/// The empty tree comes back as it was written.
pub proof fn lemma_take_nil_of_bytes(rest: Seq<u8>)
    ensures
        take_tree(tree_bytes(TreeModel::Nil) + rest) == Ok::<_, Fault>((TreeModel::Nil, rest)),
{
    let s = tree_bytes(TreeModel::Nil) + rest;
    assert(s =~= seq![0u8, 0u8] + rest);
    lemma_take_tree(s);
    lemma_take_tree_header(0, rest);
}

/// A boolean comes back as it was written.
pub proof fn lemma_take_bool_tree_of_bytes(b: bool, rest: Seq<u8>)
    ensures
        take_tree(tree_bytes(TreeModel::Bool(b)) + rest) == Ok::<_, Fault>(
            (TreeModel::Bool(b), rest),
        ),
{
    let s = tree_bytes(TreeModel::Bool(b)) + rest;
    let content = bool_bytes(b) + rest;
    assert(s =~= seq![1u8, 0u8] + content);
    lemma_take_tree(s);
    lemma_take_tree_header(1, content);
    lemma_take_bool_of_bytes(b, rest);
}

/// A number comes back as it was written.
pub proof fn lemma_take_number_of_bytes(bits: u64, rest: Seq<u8>)
    ensures
        take_tree(tree_bytes(TreeModel::Number(bits)) + rest) == Ok::<_, Fault>(
            (TreeModel::Number(bits), rest),
        ),
{
    let s = tree_bytes(TreeModel::Number(bits)) + rest;
    let content = u64_bytes(bits) + rest;
    assert(s =~= seq![2u8, 0u8] + content);
    lemma_take_tree(s);
    lemma_take_tree_header(2, content);
    lemma_take_double_of_bytes(bits, rest);
}

/// A string whose length fits comes back as it was written.
pub proof fn lemma_take_string_tree_of_bytes(text: Seq<char>, rest: Seq<u8>)
    requires
        text_fits(text),
    ensures
        take_tree(tree_bytes(TreeModel::String(text)) + rest) == Ok::<_, Fault>(
            (TreeModel::String(text), rest),
        ),
{
    let s = tree_bytes(TreeModel::String(text)) + rest;
    let content = string_bytes(text) + rest;
    assert(s =~= seq![3u8, 0u8] + content);
    lemma_take_tree(s);
    lemma_take_tree_header(3, content);
    lemma_take_string_of_bytes(text, rest);
}

/// A list comes back as it was written if its items do.
pub proof fn lemma_take_list_of_bytes(items: Seq<TreeModel>, rest: Seq<u8>)
    requires
        items.len() <= u32::MAX,
        take_list_items(list_items_bytes(items) + rest, items.len()) == Ok::<_, Fault>(
            (items, rest),
        ),
    ensures
        take_tree(tree_bytes(TreeModel::List(items)) + rest) == Ok::<_, Fault>(
            (TreeModel::List(items), rest),
        ),
{
    let s = tree_bytes(TreeModel::List(items)) + rest;
    let count = items.len() as u32;
    let body = list_items_bytes(items) + rest;
    let content = u32_bytes(count) + body;
    assert(s =~= seq![4u8, 0u8] + content);
    lemma_take_tree(s);
    lemma_take_tree_header(4, content);
    lemma_take_u32_of_bytes(count, body);
}

/// A dictionary comes back as it was written if its pairs do.
pub proof fn lemma_take_dictionary_of_bytes(pairs: Seq<(Seq<char>, TreeModel)>, rest: Seq<u8>)
    requires
        pairs.len() <= u32::MAX,
        take_dict_items(dict_items_bytes(pairs) + rest, pairs.len()) == Ok::<_, Fault>(
            (pairs, rest),
        ),
    ensures
        take_tree(tree_bytes(TreeModel::Dictionary(pairs)) + rest) == Ok::<_, Fault>(
            (TreeModel::Dictionary(pairs), rest),
        ),
{
    let s = tree_bytes(TreeModel::Dictionary(pairs)) + rest;
    let count = pairs.len() as u32;
    let body = dict_items_bytes(pairs) + rest;
    let content = u32_bytes(count) + body;
    assert(s =~= seq![5u8, 0u8] + content);
    lemma_take_tree(s);
    lemma_take_tree_header(5, content);
    lemma_take_u32_of_bytes(count, body);
}

/// A tree whose lengths fit comes back as it was written.
pub proof fn lemma_take_tree_of_bytes(tree: TreeModel, rest: Seq<u8>)
    requires
        tree.fits(),
    ensures
        take_tree(tree_bytes(tree) + rest) == Ok::<_, Fault>((tree, rest)),
    decreases tree, 0nat,
{
    match tree {
        TreeModel::List(items) => {
            lemma_take_list_items_of_bytes(items, rest);
            lemma_take_list_of_bytes(items, rest);
        },
        TreeModel::Dictionary(pairs) => {
            lemma_take_dict_items_of_bytes(pairs, rest);
            lemma_take_dictionary_of_bytes(pairs, rest);
        },
        TreeModel::Nil => {
            lemma_take_nil_of_bytes(rest);
        },
        TreeModel::Bool(b) => {
            lemma_take_bool_tree_of_bytes(b, rest);
        },
        TreeModel::Number(bits) => {
            lemma_take_number_of_bytes(bits, rest);
        },
        TreeModel::String(text) => {
            lemma_take_string_tree_of_bytes(text, rest);
        },
    }
}

/// The items of a list come back as they were written.
pub proof fn lemma_take_list_items_of_bytes(items: Seq<TreeModel>, rest: Seq<u8>)
    requires
        forall|i: int| 0 <= i < items.len() ==> (#[trigger] items[i]).fits(),
    ensures
        take_list_items(list_items_bytes(items) + rest, items.len()) == Ok::<_, Fault>(
            (items, rest),
        ),
    decreases items, 1nat,
{
    let s = list_items_bytes(items) + rest;
    lemma_take_list_items(s, items.len());
    if items.len() > 0 {
        let tail = items.drop_first();
        let after_item = list_items_bytes(tail) + rest;
        let after_label = tree_bytes(items[0]) + after_item;
        assert(s =~= string_bytes(Seq::empty()) + after_label);
        lemma_take_string_of_bytes(Seq::empty(), after_label);
        lemma_take_tree_of_bytes(items[0], after_item);
        lemma_take_list_items_of_bytes(tail, rest);
        assert(seq![items[0]] + tail =~= items);
    } else {
        assert(s =~= rest);
        assert(items =~= Seq::empty());
    }
}

/// The pairs of a dictionary come back as they were written.
pub proof fn lemma_take_dict_items_of_bytes(pairs: Seq<(Seq<char>, TreeModel)>, rest: Seq<u8>)
    requires
        forall|i: int|
            0 <= i < pairs.len() ==> text_fits((#[trigger] pairs[i]).0) && pairs[i].1.fits(),
    ensures
        take_dict_items(dict_items_bytes(pairs) + rest, pairs.len()) == Ok::<_, Fault>(
            (pairs, rest),
        ),
    decreases pairs, 1nat,
{
    let s = dict_items_bytes(pairs) + rest;
    lemma_take_dict_items(s, pairs.len());
    if pairs.len() > 0 {
        let tail = pairs.drop_first();
        let after_value = dict_items_bytes(tail) + rest;
        let after_key = tree_bytes(pairs[0].1) + after_value;
        assert(s =~= string_bytes(pairs[0].0) + after_key);
        lemma_take_string_of_bytes(pairs[0].0, after_key);
        lemma_take_tree_of_bytes(pairs[0].1, after_value);
        lemma_take_dict_items_of_bytes(tail, rest);
        assert(seq![pairs[0]] + tail =~= pairs);
    } else {
        assert(s =~= rest);
        assert(pairs =~= Seq::empty());
    }
}

/// The length of a string that was read fits 32 bits.
pub proof fn lemma_string_read_fits(s: Seq<u8>, has_empty_indicator: bool)
    ensures
        take_string(s, has_empty_indicator) matches Ok((text, rest)) ==> text_fits(text)
            && rest.len() <= s.len(),
{
    reveal(take_text);
    if let Ok((text, _)) = take_string(s, has_empty_indicator) {
        if text.len() == 0 {
            assert(encode_utf8(text).len() == 0);
        } else {
            let start = if has_empty_indicator {
                s.skip(1)
            } else {
                s
            };
            let (len, body) = take_u32_optim(start)->Ok_0;
            vstd::utf8::decode_utf8_encode_utf8(body.take(len as int));
        }
    }
}

/// The lengths in a tree that was read fit 32 bits, and the tree took at
/// least two bytes.
pub proof fn lemma_tree_read_fits(s: Seq<u8>)
    ensures
        take_tree(s) matches Ok((tree, rest)) ==> tree.fits() && rest.len() + 2 <= s.len(),
    decreases s.len(), 0nat,
{
    lemma_take_tree(s);
    if let Ok((tree, _)) = take_tree(s) {
        let body = s.skip(1).skip(1);
        match tree {
            TreeModel::String(_) => {
                lemma_string_read_fits(body, true);
            },
            TreeModel::List(_) => {
                let (count, items) = take_u32(body)->Ok_0;
                lemma_list_items_read_fit(items, count as nat);
            },
            TreeModel::Dictionary(_) => {
                let (count, items) = take_u32(body)->Ok_0;
                lemma_dict_items_read_fit(items, count as nat);
            },
            _ => {},
        }
    }
}

/// As many items were read as were asked for, and the lengths in each fit.
pub proof fn lemma_list_items_read_fit(s: Seq<u8>, count: nat)
    ensures
        take_list_items(s, count) matches Ok((items, rest)) ==> items.len() == count
            && rest.len() <= s.len() && forall|i: int|
            0 <= i < items.len() ==> (#[trigger] items[i]).fits(),
    decreases s.len(), count + 1,
{
    lemma_take_list_items(s, count);
    if count > 0 {
        if let Ok((_, after_label)) = take_string(s, true) {
            lemma_string_read_fits(s, true);
            lemma_tree_read_fits(after_label);
            if let Ok((item, rest)) = take_tree(after_label) {
                lemma_list_items_read_fit(rest, (count - 1) as nat);
            }
        }
    }
}

/// As many pairs were read as were asked for, and the lengths in each fit.
pub proof fn lemma_dict_items_read_fit(s: Seq<u8>, count: nat)
    ensures
        take_dict_items(s, count) matches Ok((pairs, rest)) ==> pairs.len() == count
            && rest.len() <= s.len() && forall|i: int|
            0 <= i < pairs.len() ==> text_fits((#[trigger] pairs[i]).0) && pairs[i].1.fits(),
    decreases s.len(), count + 1,
{
    lemma_take_dict_items(s, count);
    if count > 0 {
        if let Ok((_, after_key)) = take_string(s, true) {
            lemma_string_read_fits(s, true);
            lemma_tree_read_fits(after_key);
            if let Ok((value, rest)) = take_tree(after_key) {
                lemma_dict_items_read_fit(rest, (count - 1) as nat);
            }
        }
    }
}

} // verus!
