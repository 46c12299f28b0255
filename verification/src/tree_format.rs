//! The grammar of the bytes of a property tree: what a read takes, and
//! what a value is written as.

use vstd::prelude::*;
use crate::error::Fault;
use crate::grammar::{prepend, take_bool, take_double, take_string, take_u32, take_u8, Parsed};
use crate::layout::{bool_bytes, string_bytes, u32_bytes, u64_bytes};
use crate::tree::{PropertyTreeType, TreeModel};

verus! {

/// One tree: the byte that names its kind, a byte that is passed over, and
/// what the kind asks for.
#[verifier::opaque]
pub open spec fn take_tree(s: Seq<u8>) -> Parsed<TreeModel>
    decreases s.len(), 0nat,
{
    match take_u8(s) {
        Err(f) => Err(f),
        Ok((tag, after_tag)) => match PropertyTreeType::of_tag(tag) {
            None => Err(Fault::OutOfRange),
            Some(kind) => match take_bool(after_tag) {
                Err(f) => Err(f),
                Ok((_, body)) => match kind {
                    PropertyTreeType::Nil => Ok((TreeModel::Nil, body)),
                    PropertyTreeType::Bool => match take_bool(body) {
                        Err(f) => Err(f),
                        Ok((b, rest)) => Ok((TreeModel::Bool(b), rest)),
                    },
                    PropertyTreeType::Number => match take_double(body) {
                        Err(f) => Err(f),
                        Ok((bits, rest)) => Ok((TreeModel::Number(bits), rest)),
                    },
                    PropertyTreeType::String => match take_string(body, true) {
                        Err(f) => Err(f),
                        Ok((text, rest)) => Ok((TreeModel::String(text), rest)),
                    },
                    PropertyTreeType::List => match take_u32(body) {
                        Err(f) => Err(f),
                        Ok((count, items)) => match take_list_items(items, count as nat) {
                            Err(f) => Err(f),
                            Ok((list, rest)) => Ok((TreeModel::List(list), rest)),
                        },
                    },
                    PropertyTreeType::Dictionary => match take_u32(body) {
                        Err(f) => Err(f),
                        Ok((count, items)) => match take_dict_items(items, count as nat) {
                            Err(f) => Err(f),
                            Ok((pairs, rest)) => Ok((TreeModel::Dictionary(pairs), rest)),
                        },
                    },
                },
            },
        },
    }
}

/// `count` items of a list: each a string that is passed over, then a tree.
/// (Every string and every tree takes bytes, so the tests on the lengths
/// always hold; they are there to show that the definition ends.)
pub open spec fn take_list_items(s: Seq<u8>, count: nat) -> Parsed<Seq<TreeModel>>
    decreases s.len(), count + 1,
{
    if count == 0 {
        Ok((Seq::empty(), s))
    } else {
        match take_string(s, true) {
            Err(f) => Err(f),
            Ok((_, after_label)) => if after_label.len() < s.len() {
                match take_tree(after_label) {
                    Err(f) => Err(f),
                    Ok((item, rest)) => if rest.len() < s.len() {
                        prepend(seq![item], take_list_items(rest, (count - 1) as nat))
                    } else {
                        Err(Fault::Slicing)
                    },
                }
            } else {
                Err(Fault::Slicing)
            },
        }
    }
}

/// `count` pairs of a dictionary: each a string, the key, then a tree.
/// (The tests on the lengths are as in [`take_list_items`].)
pub open spec fn take_dict_items(s: Seq<u8>, count: nat) -> Parsed<Seq<(Seq<char>, TreeModel)>>
    decreases s.len(), count + 1,
{
    if count == 0 {
        Ok((Seq::empty(), s))
    } else {
        match take_string(s, true) {
            Err(f) => Err(f),
            Ok((key, after_key)) => if after_key.len() < s.len() {
                match take_tree(after_key) {
                    Err(f) => Err(f),
                    Ok((value, rest)) => if rest.len() < s.len() {
                        prepend(seq![(key, value)], take_dict_items(rest, (count - 1) as nat))
                    } else {
                        Err(Fault::Slicing)
                    },
                }
            } else {
                Err(Fault::Slicing)
            },
        }
    }
}

/// Whether a string is short enough for the 32 bits that hold its length.
pub open spec fn text_fits(text: Seq<char>) -> bool {
    vstd::utf8::encode_utf8(text).len() <= u32::MAX
}

impl TreeModel {
    /// Whether every length in the tree fits the 32 bits that the format
    /// gives it: the bytes of each string, the items of each list, the pairs
    /// of each dictionary.
    pub open spec fn fits(self) -> bool
        decreases self,
    {
        match self {
            TreeModel::String(text) => text_fits(text),
            TreeModel::List(items) => items.len() <= u32::MAX && forall|i: int|
                0 <= i < items.len() ==> (#[trigger] items[i]).fits(),
            TreeModel::Dictionary(pairs) => pairs.len() <= u32::MAX && forall|i: int|
                0 <= i < pairs.len() ==> text_fits((#[trigger] pairs[i]).0) && pairs[i].1.fits(),
            _ => true,
        }
    }
}

/// The bytes of a tree: the byte of its kind, the byte 0, and its content.
/// A list or dictionary writes the low 32 bits of its length, then its
/// items.
pub open spec fn tree_bytes(t: TreeModel) -> Seq<u8>
    decreases t,
{
    match t {
        TreeModel::Nil => seq![0u8, 0u8],
        TreeModel::Bool(b) => seq![1u8, 0u8] + bool_bytes(b),
        TreeModel::Number(bits) => seq![2u8, 0u8] + u64_bytes(bits),
        TreeModel::String(text) => seq![3u8, 0u8] + string_bytes(text),
        TreeModel::List(items) => seq![4u8, 0u8] + u32_bytes((items.len() % 0x1_0000_0000) as u32)
            + list_items_bytes(items),
        TreeModel::Dictionary(pairs) => seq![5u8, 0u8] + u32_bytes(
            (pairs.len() % 0x1_0000_0000) as u32,
        ) + dict_items_bytes(pairs),
    }
}

/// The items of a list, each after an empty string.
pub open spec fn list_items_bytes(items: Seq<TreeModel>) -> Seq<u8>
    decreases items,
{
    if items.len() == 0 {
        Seq::empty()
    } else {
        string_bytes(Seq::empty()) + tree_bytes(items[0]) + list_items_bytes(items.drop_first())
    }
}

/// The pairs of a dictionary, each key before its value.
pub open spec fn dict_items_bytes(pairs: Seq<(Seq<char>, TreeModel)>) -> Seq<u8>
    decreases pairs,
{
    if pairs.len() == 0 {
        Seq::empty()
    } else {
        string_bytes(pairs[0].0) + tree_bytes(pairs[0].1) + dict_items_bytes(pairs.drop_first())
    }
}

/// The definition of [`take_tree`] at one sequence.
pub proof fn lemma_take_tree(s: Seq<u8>)
    ensures
        take_tree(s) == (
        match take_u8(s) {
            Err(f) => Err(f),
            Ok((tag, after_tag)) => match PropertyTreeType::of_tag(tag) {
                None => Err(Fault::OutOfRange),
                Some(kind) => match take_bool(after_tag) {
                    Err(f) => Err(f),
                    Ok((_, body)) => match kind {
                        PropertyTreeType::Nil => Ok((TreeModel::Nil, body)),
                        PropertyTreeType::Bool => match take_bool(body) {
                            Err(f) => Err(f),
                            Ok((b, rest)) => Ok((TreeModel::Bool(b), rest)),
                        },
                        PropertyTreeType::Number => match take_double(body) {
                            Err(f) => Err(f),
                            Ok((bits, rest)) => Ok((TreeModel::Number(bits), rest)),
                        },
                        PropertyTreeType::String => match take_string(body, true) {
                            Err(f) => Err(f),
                            Ok((text, rest)) => Ok((TreeModel::String(text), rest)),
                        },
                        PropertyTreeType::List => match take_u32(body) {
                            Err(f) => Err(f),
                            Ok((count, items)) => match take_list_items(items, count as nat) {
                                Err(f) => Err(f),
                                Ok((list, rest)) => Ok((TreeModel::List(list), rest)),
                            },
                        },
                        PropertyTreeType::Dictionary => match take_u32(body) {
                            Err(f) => Err(f),
                            Ok((count, items)) => match take_dict_items(items, count as nat) {
                                Err(f) => Err(f),
                                Ok((pairs, rest)) => Ok((TreeModel::Dictionary(pairs), rest)),
                            },
                        },
                    },
                },
            },
        }
        ),
{
    reveal(take_tree);
}

/// The definition of [`take_list_items`] at one sequence and count.
pub proof fn lemma_take_list_items(s: Seq<u8>, count: nat)
    ensures
        count == 0 ==> take_list_items(s, count) == Ok::<_, Fault>((Seq::<TreeModel>::empty(), s)),
        count > 0 ==> take_list_items(s, count) == match take_string(s, true) {
            Err(f) => Err(f),
            Ok((_, after_label)) => if after_label.len() < s.len() {
                match take_tree(after_label) {
                    Err(f) => Err(f),
                    Ok((item, rest)) => if rest.len() < s.len() {
                        prepend(seq![item], take_list_items(rest, (count - 1) as nat))
                    } else {
                        Err(Fault::Slicing)
                    },
                }
            } else {
                Err(Fault::Slicing)
            },
        },
{
    reveal(take_tree);
}

/// The definition of [`take_dict_items`] at one sequence and count.
pub proof fn lemma_take_dict_items(s: Seq<u8>, count: nat)
    ensures
        count == 0 ==> take_dict_items(s, count) == Ok::<_, Fault>(
            (Seq::<(Seq<char>, TreeModel)>::empty(), s),
        ),
        count > 0 ==> take_dict_items(s, count) == match take_string(s, true) {
            Err(f) => Err(f),
            Ok((key, after_key)) => if after_key.len() < s.len() {
                match take_tree(after_key) {
                    Err(f) => Err(f),
                    Ok((value, rest)) => if rest.len() < s.len() {
                        prepend(seq![(key, value)], take_dict_items(rest, (count - 1) as nat))
                    } else {
                        Err(Fault::Slicing)
                    },
                }
            } else {
                Err(Fault::Slicing)
            },
        },
{
    reveal(take_tree);
}

/// The bytes of the items from the `i`-th on begin with those of the `i`-th.
pub proof fn lemma_list_items_bytes_from(items: Seq<TreeModel>, i: int)
    requires
        0 <= i < items.len(),
    ensures
        list_items_bytes(items.skip(i)) == string_bytes(Seq::empty()) + tree_bytes(items[i])
            + list_items_bytes(items.skip(i + 1)),
{
    assert(items.skip(i).drop_first() =~= items.skip(i + 1));
}

/// The bytes of the pairs from the `i`-th on begin with those of the `i`-th.
pub proof fn lemma_dict_items_bytes_from(pairs: Seq<(Seq<char>, TreeModel)>, i: int)
    requires
        0 <= i < pairs.len(),
    ensures
        dict_items_bytes(pairs.skip(i)) == string_bytes(pairs[i].0) + tree_bytes(pairs[i].1)
            + dict_items_bytes(pairs.skip(i + 1)),
{
    assert(pairs.skip(i).drop_first() =~= pairs.skip(i + 1));
}

} // verus!
