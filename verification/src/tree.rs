//! The property tree: a tagged value that nests lists and dictionaries.

use vstd::prelude::*;
use crate::error::Error;

verus! {

/// A value of the container format. `Number` holds the bits of an IEEE-754
/// double. A `Dictionary` keeps its pairs in the order in which they were
/// read or given.
#[derive(Debug, PartialEq, Eq)]
pub enum PropertyTree {
    Nil,
    Bool(bool),
    Number(u64),
    String(String),
    List(Vec<PropertyTree>),
    Dictionary(Vec<(String, PropertyTree)>),
}

/// The mathematical value that a [`PropertyTree`] stands for.
pub enum TreeModel {
    Nil,
    Bool(bool),
    Number(u64),
    String(Seq<char>),
    List(Seq<TreeModel>),
    Dictionary(Seq<(Seq<char>, TreeModel)>),
}

/// No two of the pairs have the same key.
pub open spec fn keys_differ(pairs: Seq<(Seq<char>, TreeModel)>) -> bool {
    forall|i: int, j: int|
        0 <= i < j < pairs.len() ==> (#[trigger] pairs[i]).0 != (#[trigger] pairs[j]).0
}

impl TreeModel {
    /// Whether, in every dictionary of the tree, each key stands once. A
    /// tree that was read need not be so: the pairs are kept as the bytes
    /// give them.
    pub open spec fn keys_unique(self) -> bool
        decreases self,
    {
        match self {
            TreeModel::List(items) => forall|i: int|
                0 <= i < items.len() ==> (#[trigger] items[i]).keys_unique(),
            TreeModel::Dictionary(pairs) => keys_differ(pairs) && forall|i: int|
                0 <= i < pairs.len() ==> (#[trigger] pairs[i]).1.keys_unique(),
            _ => true,
        }
    }
}

impl View for PropertyTree {
    type V = TreeModel;

    open spec fn view(&self) -> TreeModel
        decreases self,
    {
        match self {
            PropertyTree::Nil => TreeModel::Nil,
            PropertyTree::Bool(b) => TreeModel::Bool(*b),
            PropertyTree::Number(bits) => TreeModel::Number(*bits),
            PropertyTree::String(s) => TreeModel::String(s@),
            PropertyTree::List(items) => TreeModel::List(item_models(items@)),
            PropertyTree::Dictionary(pairs) => TreeModel::Dictionary(pair_models(pairs@)),
        }
    }
}

/// The values that a sequence of trees stands for, in order.
pub open spec fn item_models(items: Seq<PropertyTree>) -> Seq<TreeModel>
    decreases items,
{
    if items.len() == 0 {
        Seq::empty()
    } else {
        item_models(items.drop_last()).push(items.last().view())
    }
}

/// The keys and values that a sequence of pairs stands for, in order.
pub open spec fn pair_models(pairs: Seq<(String, PropertyTree)>) -> Seq<(Seq<char>, TreeModel)>
    decreases pairs,
{
    if pairs.len() == 0 {
        Seq::empty()
    } else {
        pair_models(pairs.drop_last()).push((pairs.last().0@, pairs.last().1.view()))
    }
}

/// The model of a sequence of trees has the model of each tree in its place.
pub proof fn lemma_item_models(items: Seq<PropertyTree>)
    ensures
        item_models(items).len() == items.len(),
        forall|i: int| 0 <= i < items.len() ==> #[trigger] item_models(items)[i] == items[i]@,
    decreases items.len(),
{
    if items.len() > 0 {
        lemma_item_models(items.drop_last());
        assert(item_models(items) == item_models(items.drop_last()).push(items.last()@));
    } else {
        assert(item_models(items) == Seq::<TreeModel>::empty());
    }
}

/// The model of a sequence of pairs has the model of each pair in its place.
pub proof fn lemma_pair_models(pairs: Seq<(String, PropertyTree)>)
    ensures
        pair_models(pairs).len() == pairs.len(),
        forall|i: int|
            0 <= i < pairs.len() ==> #[trigger] pair_models(pairs)[i] == (pairs[i].0@, pairs[i].1@),
    decreases pairs.len(),
{
    if pairs.len() > 0 {
        lemma_pair_models(pairs.drop_last());
        assert(pair_models(pairs) == pair_models(pairs.drop_last()).push(
            (pairs.last().0@, pairs.last().1@),
        ));
    } else {
        assert(pair_models(pairs) == Seq::<(Seq<char>, TreeModel)>::empty());
    }
}

/// Pushing a tree pushes its model.
pub proof fn lemma_item_models_push(items: Seq<PropertyTree>, item: PropertyTree)
    ensures
        item_models(items.push(item)) == item_models(items).push(item@),
{
    assert(items.push(item).drop_last() =~= items);
}

/// Pushing a pair pushes its model.
pub proof fn lemma_pair_models_push(pairs: Seq<(String, PropertyTree)>, pair: (String, PropertyTree))
    ensures
        pair_models(pairs.push(pair)) == pair_models(pairs).push((pair.0@, pair.1@)),
{
    assert(pairs.push(pair).drop_last() =~= pairs);
}

impl Clone for PropertyTree {
    /// A copy that stands for the same value.
    fn clone(&self) -> (r: Self)
        ensures
            r@ == self@,
        decreases self,
    {
        match self {
            PropertyTree::Nil => PropertyTree::Nil,
            PropertyTree::Bool(b) => PropertyTree::Bool(*b),
            PropertyTree::Number(bits) => PropertyTree::Number(*bits),
            PropertyTree::String(s) => PropertyTree::String(s.clone()),
            PropertyTree::List(items) => {
                let mut copies: Vec<PropertyTree> = Vec::new();
                let mut i: usize = 0;
                assert(items@.take(0) =~= Seq::empty());
                assert forall|j: int| 0 <= j < items.len() implies decreases_to!(self => items[j]) by {
                    assert(decreases_to!(items => items[j]));
                }
                while i < items.len()
                    invariant
                        i <= items.len(),
                        item_models(copies@) == item_models(items@.take(i as int)),
                        forall|j: int| 0 <= j < items.len() ==> decreases_to!(self => items[j]),
                    decreases items.len() - i,
                {
                    let copy = items[i].clone();
                    proof {
                        lemma_item_models_push(copies@, copy);
                        lemma_item_models_push(items@.take(i as int), items@[i as int]);
                        assert(items@.take(i + 1) =~= items@.take(i as int).push(items@[i as int]));
                    }
                    copies.push(copy);
                    i += 1;
                }
                assert(items@.take(i as int) =~= items@);
                PropertyTree::List(copies)
            },
            PropertyTree::Dictionary(pairs) => {
                let mut copies: Vec<(String, PropertyTree)> = Vec::new();
                let mut i: usize = 0;
                assert(pairs@.take(0) =~= Seq::empty());
                assert forall|j: int| 0 <= j < pairs.len() implies decreases_to!(self => pairs[j].1) by {
                    assert(decreases_to!(pairs => pairs[j]));
                }
                while i < pairs.len()
                    invariant
                        i <= pairs.len(),
                        pair_models(copies@) == pair_models(pairs@.take(i as int)),
                        forall|j: int| 0 <= j < pairs.len() ==> decreases_to!(self => pairs[j].1),
                    decreases pairs.len() - i,
                {
                    let copy = (pairs[i].0.clone(), pairs[i].1.clone());
                    proof {
                        lemma_pair_models_push(copies@, copy);
                        lemma_pair_models_push(pairs@.take(i as int), pairs@[i as int]);
                        assert(pairs@.take(i + 1) =~= pairs@.take(i as int).push(pairs@[i as int]));
                    }
                    copies.push(copy);
                    i += 1;
                }
                assert(pairs@.take(i as int) =~= pairs@);
                PropertyTree::Dictionary(copies)
            },
        }
    }
}

/// The kind of a tree, as its first byte names it.
#[derive(Clone, Copy, Debug, PartialEq, Eq)]
pub enum PropertyTreeType {
    Nil,
    Bool,
    Number,
    String,
    List,
    Dictionary,
}

impl PropertyTreeType {
    /// The byte that names this kind.
    pub open spec fn tag(self) -> u8 {
        match self {
            PropertyTreeType::Nil => 0,
            PropertyTreeType::Bool => 1,
            PropertyTreeType::Number => 2,
            PropertyTreeType::String => 3,
            PropertyTreeType::List => 4,
            PropertyTreeType::Dictionary => 5,
        }
    }

    /// The kind that `tag` names; none for 6 and above.
    pub open spec fn of_tag(tag: u8) -> Option<PropertyTreeType> {
        if tag == 0 {
            Some(PropertyTreeType::Nil)
        } else if tag == 1 {
            Some(PropertyTreeType::Bool)
        } else if tag == 2 {
            Some(PropertyTreeType::Number)
        } else if tag == 3 {
            Some(PropertyTreeType::String)
        } else if tag == 4 {
            Some(PropertyTreeType::List)
        } else if tag == 5 {
            Some(PropertyTreeType::Dictionary)
        } else {
            None
        }
    }

    /// Each kind is the one that its own byte names.
    pub proof fn lemma_of_tag_tag(self)
        ensures
            PropertyTreeType::of_tag(self.tag()) == Some(self),
    {
    }
}

impl TryFrom<u8> for PropertyTreeType {
    type Error = Error;

    /// The kind that a byte names; `OutOfRange` for 6 and above.
    fn try_from(value: u8) -> (r: Result<Self, Error>) {
        match value {
            0 => Ok(PropertyTreeType::Nil),
            1 => Ok(PropertyTreeType::Bool),
            2 => Ok(PropertyTreeType::Number),
            3 => Ok(PropertyTreeType::String),
            4 => Ok(PropertyTreeType::List),
            5 => Ok(PropertyTreeType::Dictionary),
            _ => Err(Error::OutOfRange),
        }
    }
}

impl vstd::std_specs::convert::TryFromSpecImpl<u8> for PropertyTreeType {
    open spec fn obeys_try_from_spec() -> bool {
        true
    }

    open spec fn try_from_spec(value: u8) -> Result<Self, Error> {
        match PropertyTreeType::of_tag(value) {
            Some(kind) => Ok(kind),
            None => Err(Error::OutOfRange),
        }
    }
}

impl TryFrom<PropertyTreeType> for u8 {
    type Error = Error;

    /// The byte that names a kind. It always succeeds.
    fn try_from(value: PropertyTreeType) -> (r: Result<Self, Error>) {
        match value {
            PropertyTreeType::Nil => Ok(0),
            PropertyTreeType::Bool => Ok(1),
            PropertyTreeType::Number => Ok(2),
            PropertyTreeType::String => Ok(3),
            PropertyTreeType::List => Ok(4),
            PropertyTreeType::Dictionary => Ok(5),
        }
    }
}

impl vstd::std_specs::convert::TryFromSpecImpl<PropertyTreeType> for u8 {
    open spec fn obeys_try_from_spec() -> bool {
        true
    }

    open spec fn try_from_spec(value: PropertyTreeType) -> Result<Self, Error> {
        Ok(value.tag())
    }
}

} // verus!
