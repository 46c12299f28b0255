//! Reading a property tree off a cursor and writing one to a writer.

use vstd::prelude::*;
use crate::cursor::Deserialiser;
use crate::error::Error;
use crate::grammar::{
    group_tail, is_tail_of, lemma_prepend_empty, lemma_prepend_push, lemma_string_takes_bytes,
    prepend,
};
use crate::tree::{
    item_models, lemma_item_models, lemma_item_models_push, lemma_pair_models,
    lemma_pair_models_push, pair_models, PropertyTree, PropertyTreeType, TreeModel,
};
use crate::tree_format::{
    dict_items_bytes, lemma_dict_items_bytes_from, lemma_list_items_bytes_from,
    lemma_take_dict_items, lemma_take_list_items, list_items_bytes, take_dict_items,
    take_list_items, take_tree, tree_bytes,
};
use crate::writer::Serialiser;

verus! {

broadcast use group_tail;

impl<'a> Deserialiser<'a> {
    /// Reads one tree. A byte that names no kind is refused as soon as it is
    /// read.
    pub fn parse_property_tree(&mut self) -> (r: Result<PropertyTree, Error>)
        ensures
            is_tail_of(final(self)@, old(self)@),
            match take_tree(old(self)@) {
                Ok((tree, rest)) => r matches Ok(t) && t@ == tree && final(self)@ == rest
                    && rest.len() + 2 <= old(self)@.len(),
                Err(f) => r matches Err(e) && e@ == f,
            },
            old(self)@.len() > 0 && old(self)@[0] >= 6 ==> r == Err::<PropertyTree, Error>(
                Error::OutOfRange,
            ),
        decreases old(self)@.len(), 0nat,
    {
        proof {
            reveal(take_tree);
        }
        let type_u8 = self.next_u8()?;
        let kind = PropertyTreeType::try_from(type_u8)?;
        self.parse_bool()?;
        match kind {
            PropertyTreeType::Nil => Ok(PropertyTree::Nil),
            PropertyTreeType::Bool => Ok(PropertyTree::Bool(self.parse_bool()?)),
            PropertyTreeType::Number => Ok(PropertyTree::Number(self.parse_double()?)),
            PropertyTreeType::String => Ok(PropertyTree::String(self.parse_string()?)),
            PropertyTreeType::List => {
                let len = self.next_u32()?;
                Ok(PropertyTree::List(self.parse_list_items(len)?))
            },
            PropertyTreeType::Dictionary => {
                let len = self.next_u32()?;
                Ok(PropertyTree::Dictionary(self.parse_dict_items(len)?))
            },
        }
    }

    /// Reads the `count` items of a list.
    fn parse_list_items(&mut self, count: u32) -> (r: Result<Vec<PropertyTree>, Error>)
        ensures
            is_tail_of(final(self)@, old(self)@),
            match take_list_items(old(self)@, count as nat) {
                Ok((items, rest)) => r matches Ok(list) && item_models(list@) == items
                    && final(self)@ == rest,
                Err(f) => r matches Err(e) && e@ == f,
            },
        decreases old(self)@.len(), 1nat,
    {
        let mut list: Vec<PropertyTree> = Vec::new();
        let mut i: u32 = 0;
        proof {
            lemma_prepend_empty(take_list_items(self@, count as nat));
        }
        while i < count
            invariant
                i <= count,
                is_tail_of(self@, old(self)@),
                take_list_items(old(self)@, count as nat) == prepend(
                    item_models(list@),
                    take_list_items(self@, (count - i) as nat),
                ),
            decreases count - i,
        {
            proof {
                lemma_take_list_items(self@, (count - i) as nat);
                lemma_string_takes_bytes(self@, true);
            }
            self.parse_string()?;
            let item = self.parse_property_tree()?;
            proof {
                lemma_item_models_push(list@, item);
                lemma_prepend_push(
                    item_models(list@),
                    item@,
                    take_list_items(self@, (count - i - 1) as nat),
                );
            }
            list.push(item);
            i += 1;
        }
        proof {
            lemma_take_list_items(self@, 0);
            assert(item_models(list@) + Seq::<TreeModel>::empty() =~= item_models(list@));
        }
        Ok(list)
    }

    /// Reads the `count` pairs of a dictionary.
    fn parse_dict_items(&mut self, count: u32) -> (r: Result<Vec<(String, PropertyTree)>, Error>)
        ensures
            is_tail_of(final(self)@, old(self)@),
            match take_dict_items(old(self)@, count as nat) {
                Ok((pairs, rest)) => r matches Ok(dict) && pair_models(dict@) == pairs
                    && final(self)@ == rest,
                Err(f) => r matches Err(e) && e@ == f,
            },
        decreases old(self)@.len(), 1nat,
    {
        let mut dict: Vec<(String, PropertyTree)> = Vec::new();
        let mut i: u32 = 0;
        proof {
            lemma_prepend_empty(take_dict_items(self@, count as nat));
        }
        while i < count
            invariant
                i <= count,
                is_tail_of(self@, old(self)@),
                take_dict_items(old(self)@, count as nat) == prepend(
                    pair_models(dict@),
                    take_dict_items(self@, (count - i) as nat),
                ),
            decreases count - i,
        {
            proof {
                lemma_take_dict_items(self@, (count - i) as nat);
                lemma_string_takes_bytes(self@, true);
            }
            let key = self.parse_string()?;
            let value = self.parse_property_tree()?;
            proof {
                lemma_pair_models_push(dict@, (key, value));
                lemma_prepend_push(
                    pair_models(dict@),
                    (key@, value@),
                    take_dict_items(self@, (count - i - 1) as nat),
                );
            }
            dict.push((key, value));
            i += 1;
        }
        proof {
            lemma_take_dict_items(self@, 0);
            assert(pair_models(dict@) + Seq::<(Seq<char>, TreeModel)>::empty() =~= pair_models(
                dict@,
            ));
        }
        Ok(dict)
    }
}

impl Serialiser {
    /// Appends the bytes of a tree. It always succeeds.
    pub fn write_property_tree(&mut self, value: PropertyTree) -> (r: Result<(), Error>)
        ensures
            r is Ok,
            final(self)@ == old(self)@ + tree_bytes(value@),
        decreases value,
    {
        match value {
            PropertyTree::Nil => {
                self.write_u8(0);
                self.write_bool(false);
                assert(self@ =~= old(self)@ + tree_bytes(value@));
            },
            PropertyTree::Bool(b) => {
                self.write_u8(1);
                self.write_bool(false);
                self.write_bool(b);
                assert(self@ =~= old(self)@ + tree_bytes(value@));
            },
            PropertyTree::Number(bits) => {
                self.write_u8(2);
                self.write_bool(false);
                self.write_double(bits);
                assert(self@ =~= old(self)@ + tree_bytes(value@));
            },
            PropertyTree::String(string) => {
                self.write_u8(3);
                self.write_bool(false);
                self.write_string(string);
                assert(self@ =~= old(self)@ + tree_bytes(value@));
            },
            PropertyTree::List(list) => {
                self.write_u8(4);
                self.write_bool(false);
                let wide = list.len() as u64;
                self.write_u32((wide % 0x1_0000_0000) as u32);
                let ghost head = self@;
                let ghost models = item_models(list@);
                proof {
                    lemma_item_models(list@);
                    assert(models.skip(0) =~= models);
                    assert forall|j: int| 0 <= j < list@.len() implies decreases_to!(value => list@[j]) by {
                        assert(decreases_to!(list => list[j]));
                    }
                }
                for item in iter: list
                    invariant
                        forall|j: int|
                            0 <= j < iter.seq().len() ==> decreases_to!(value => #[trigger] iter.seq()[j]),
                        models == item_models(iter.seq()),
                        models.len() == iter.seq().len(),
                        self@ + list_items_bytes(models.skip(iter.index() as int)) == head
                            + list_items_bytes(models),
                {
                    proof {
                        lemma_item_models(iter.seq());
                        lemma_list_items_bytes_from(models, iter.index() as int);
                    }
                    let ghost before = self@;
                    self.write_string(String::new());
                    self.write_property_tree(item)?;
                    assert(self@ + list_items_bytes(models.skip(iter.index() + 1)) =~= before
                        + list_items_bytes(models.skip(iter.index() as int)));
                }
                assert(self@ =~= old(self)@ + tree_bytes(value@));
            },
            PropertyTree::Dictionary(dict) => {
                self.write_u8(5);
                self.write_bool(false);
                let wide = dict.len() as u64;
                self.write_u32((wide % 0x1_0000_0000) as u32);
                let ghost head = self@;
                let ghost models = pair_models(dict@);
                proof {
                    lemma_pair_models(dict@);
                    assert(models.skip(0) =~= models);
                    assert forall|j: int| 0 <= j < dict@.len() implies decreases_to!(value => dict@[j].1) by {
                        assert(decreases_to!(dict => dict[j]));
                    }
                }
                for pair in iter: dict
                    invariant
                        forall|j: int|
                            0 <= j < iter.seq().len() ==> decreases_to!(value => (#[trigger] iter.seq()[j]).1),
                        models == pair_models(iter.seq()),
                        models.len() == iter.seq().len(),
                        self@ + dict_items_bytes(models.skip(iter.index() as int)) == head
                            + dict_items_bytes(models),
                {
                    proof {
                        lemma_pair_models(iter.seq());
                        lemma_dict_items_bytes_from(models, iter.index() as int);
                    }
                    let ghost before = self@;
                    let (k, v) = pair;
                    self.write_string(k);
                    self.write_property_tree(v)?;
                    assert(self@ + dict_items_bytes(models.skip(iter.index() + 1)) =~= before
                        + dict_items_bytes(models.skip(iter.index() as int)));
                }
                assert(self@ =~= old(self)@ + tree_bytes(value@));
            },
        }
        Ok(())
    }
}

} // verus!
