//! Maps from text, kept in the order of their keys.
use crate::text::strings;
use crate::text_order::{
    in_order, lemma_inserted_in_order, slot, text_less, text_order_is_total,
};
use vstd::prelude::*;

verus! {

/// A map from text. The keys stand in order, and each value where its key does.
#[derive(Clone, Debug, PartialEq, Eq, Default)]
pub struct TextMap<V> {
    pub(crate) keys: Vec<String>,
    pub(crate) values: Vec<V>,
}

/// The map of keys and values that stand at the same places.
pub open spec fn paired<V>(keys: Seq<Seq<char>>, values: Seq<V>) -> Map<Seq<char>, V> {
    Map::new(|key: Seq<char>| keys.contains(key), |key: Seq<char>| values[keys.index_of(key)])
}

impl<V> View for TextMap<V> {
    type V = Map<Seq<char>, V>;

    open spec fn view(&self) -> Map<Seq<char>, V> {
        paired(self.names(), self.entries())
    }
}

/// Texts in order are distinct, so each stands where it is first found.
proof fn lemma_index(keys: Seq<Seq<char>>, at: int)
    requires
        in_order(keys),
        0 <= at < keys.len(),
    ensures
        keys.contains(keys[at]),
        keys.index_of(keys[at]) == at,
{
    let found = keys.index_of(keys[at]);
    assert(keys.contains(keys[at]));
    assert(keys[found] == keys[at]);
    text_order_is_total(keys[at], keys[at]);
    if found < at {
        assert(text_less(keys[found], keys[at]));
    } else if at < found {
        assert(text_less(keys[at], keys[found]));
    }
}

impl<V> TextMap<V> {
    /// The keys, in order.
    pub closed spec fn names(self) -> Seq<Seq<char>> {
        strings(self.keys@)
    }

    /// The values, in the order of their keys.
    pub closed spec fn entries(self) -> Seq<V> {
        self.values@
    }

    /// The keys are in order, and every key has a value.
    pub open spec fn wf(self) -> bool {
        &&& in_order(self.names())
        &&& self.names().len() == self.entries().len()
    }

    /// The keys, in order.
    pub fn keys(&self) -> (keys: &Vec<String>)
        ensures
            strings(keys@) == self.names(),
    {
        &self.keys
    }

    /// The values, in the order of their keys.
    pub fn values(&self) -> (values: &Vec<V>)
        ensures
            values@ == self.entries(),
    {
        &self.values
    }

    /// An empty map.
    pub fn new() -> (map: TextMap<V>)
        ensures
            map.wf(),
            map.names().len() == 0,
            map@ == Map::<Seq<char>, V>::empty(),
    {
        let map = TextMap { keys: Vec::new(), values: Vec::new() };
        assert(map@ =~= Map::<Seq<char>, V>::empty());
        map
    }

    /// The value at a position is that of the key there.
    pub proof fn entry_at(self, at: int)
        requires
            self.wf(),
            0 <= at < self.names().len(),
        ensures
            self@.contains_key(self.names()[at]),
            self@[self.names()[at]] == self.entries()[at],
            self@.dom().finite(),
    {
        let names = self.names();
        lemma_index(names, at);
        assert(self@.dom() =~= names.to_set());
    }

    /// Gives a key a value, in place of the one it had.
    pub fn insert(&mut self, key: &str, value: V)
        requires
            old(self).wf(),
        ensures
            final(self).wf(),
            final(self)@ == old(self)@.insert(key@, value),
            old(self)@.contains_key(key@) ==> final(self).names() == old(self).names(),
            forall|i: int|
                0 <= i < final(self).entries().len() ==> old(self).entries().contains(
                    #[trigger] final(self).entries()[i],
                ) || final(self).entries()[i] == value,
    {
        let ghost names = strings(self.keys@);
        let ghost before = self.values@;
        let ghost whole = self@;
        let (at, found) = slot(&self.keys, key);
        if found {
            self.values.set(at, value);
            proof {
                lemma_index(names, at as int);
                assert(self.values@ =~= before.update(at as int, value));
                assert(self@ =~= whole.insert(key@, value)) by {
                    assert forall|k: Seq<char>| names.contains(k) && k != key@ implies #[trigger]
                        self@[k] == whole[k] by {
                        let i = names.index_of(k);
                        assert(names[i] == k);
                        assert(names[at as int] == key@);
                    }
                }
                assert forall|i: int| 0 <= i < self.values@.len() implies before.contains(
                    #[trigger] self.values@[i],
                ) || self.values@[i] == value by {
                    if i != at {
                        assert(before[i] == self.values@[i]);
                    }
                }
            }
        } else {
            proof {
                if names.contains(key@) {
                    let i = names.index_of(key@);
                    assert(names[i] == key@);
                    text_order_is_total(key@, key@);
                    if i < at {
                        assert(text_less(names[i], key@));
                    } else {
                        assert(text_less(key@, names[i]));
                    }
                }
            }
            self.keys.insert(at, key.to_owned());
            self.values.insert(at, value);
            proof {
                let after = strings(self.keys@);
                assert(after =~= names.insert(at as int, key@));
                lemma_inserted_in_order(names, at as int, key@);
                assert(self.values@ =~= before.insert(at as int, value));
                assert forall|k: Seq<char>| #[trigger]
                    self@.contains_key(k) <==> whole.insert(key@, value).contains_key(k) by {
                    assert(after.to_set().contains(k) <==> names.to_set().insert(key@).contains(k));
                }
                assert forall|k: Seq<char>| after.contains(k) implies #[trigger] self@[k]
                    == whole.insert(key@, value)[k] by {
                    assert(after.to_set().contains(k) <==> names.to_set().insert(key@).contains(k));
                    let i = after.index_of(k);
                    assert(after[i] == k);
                    if i < at {
                        lemma_index(names, i);
                        assert(names[i] == k);
                    } else if i > at {
                        lemma_index(names, i - 1);
                        assert(names[i - 1] == k);
                    }
                }
                assert(self@ =~= whole.insert(key@, value));
                assert forall|i: int| 0 <= i < self.values@.len() implies before.contains(
                    #[trigger] self.values@[i],
                ) || self.values@[i] == value by {
                    if i < at {
                        assert(before[i] == self.values@[i]);
                    } else if i > at {
                        assert(before[i - 1] == self.values@[i]);
                    }
                }
            }
        }
    }

    /// The value of a key.
    pub fn get(&self, key: &str) -> (value: Option<&V>)
        requires
            self.wf(),
        ensures
            match value {
                Some(held) => self@.contains_key(key@) && *held == self@[key@],
                None => !self@.contains_key(key@),
            },
    {
        let ghost names = strings(self.keys@);
        let (at, found) = slot(&self.keys, key);
        if found {
            proof {
                lemma_index(names, at as int);
            }
            Some(&self.values[at])
        } else {
            proof {
                if names.contains(key@) {
                    let i = names.index_of(key@);
                    assert(names[i] == key@);
                    text_order_is_total(key@, key@);
                    if i < at {
                        assert(text_less(names[i], key@));
                    } else {
                        assert(text_less(key@, names[i]));
                    }
                }
            }
            None
        }
    }
}

} // verus!
