//! Keys for items that belong in keyed collections. Lists themselves are
//! reserved: a list can be filled from a vector of keyed items, and no more.

use vstd::prelude::*;

verus! {

/// What a key is, as a value of mathematics.
pub struct KeyView {
    pub string: Option<Seq<char>>,
    pub number: Option<u128>,
}

/// The key of an item: a string, a number, or both.
#[derive(Debug, Hash, Eq, PartialEq)]
pub struct Key {
    string: Option<String>,
    number: Option<u128>,
}

impl View for Key {
    type V = KeyView;

    closed spec fn view(&self) -> KeyView {
        KeyView {
            string: match self.string {
                Some(s) => Some(s@),
                None => None,
            },
            number: self.number,
        }
    }
}

impl Clone for Key {
    fn clone(&self) -> (key: Self)
        ensures
            key@ == self@,
    {
        let string = match &self.string {
            Some(s) => Some(s.clone()),
            None => None,
        };
        Key { string, number: self.number }
    }
}

impl Key {
    /// The key that is the string `string`.
    pub fn string(string: String) -> (key: Key)
        ensures
            key@ == (KeyView { string: Some(string@), number: None }),
    {
        Key { string: Some(string), number: None }
    }

    /// The key that is the number `number`.
    pub fn number(number: u128) -> (key: Key)
        ensures
            key@ == (KeyView { string: None, number: Some(number) }),
    {
        Key { string: None, number: Some(number) }
    }

    /// The key that is the string `string` and the number `number`.
    pub fn pair(string: String, number: u128) -> (key: Key)
        ensures
            key@ == (KeyView { string: Some(string@), number: Some(number) }),
    {
        Key { string: Some(string), number: Some(number) }
    }
}

/// An item with its key.
pub struct KeyedItem<Item> {
    key: Key,
    item: Item,
}

impl<Item> KeyedItem<Item> {
    /// The key.
    pub closed spec fn key(&self) -> Key {
        self.key
    }

    /// The item.
    pub closed spec fn item(&self) -> Item {
        self.item
    }
}

/// A list of keyed items.
pub struct ReactiveList<T> {
    items: Vec<KeyedItem<T>>,
}

impl<T> View for ReactiveList<T> {
    type V = Seq<KeyedItem<T>>;

    closed spec fn view(&self) -> Seq<KeyedItem<T>> {
        self.items@
    }
}

impl<T> ReactiveList<T> {
    /// How many items the list holds.
    pub fn len(&self) -> (n: usize)
        ensures
            n == self@.len(),
    {
        self.items.len()
    }
}

/// An item that has a key.
pub trait GetReactiveKey {
    /// The key of the item.
    fn get_reactive_key(&self) -> Key;
}

/// A collection that can be copied into a list of keyed items.
pub trait CopyIntoReactiveList<Item: Clone + GetReactiveKey> {
    /// The items of the collection, as a value of mathematics.
    spec fn items(&self) -> Seq<Item>;

    /// A list of clones of the items, in their order, each with the key
    /// that it gives for itself.
    fn copy_into_reactive_list(&self) -> (list: ReactiveList<Item>)
        ensures
            list@.len() == self.items().len(),
            forall|i: int| 0 <= i < list@.len() ==> cloned(self.items()[i], (#[trigger] list@[i]).item()),
            forall|i: int|
                0 <= i < list@.len() ==> call_ensures(
                    Item::get_reactive_key,
                    (&self.items()[i],),
                    (#[trigger] list@[i]).key(),
                ),
    ;
}

impl<T: Clone + GetReactiveKey> CopyIntoReactiveList<T> for Vec<T> {
    open spec fn items(&self) -> Seq<T> {
        self@
    }

    fn copy_into_reactive_list(&self) -> (list: ReactiveList<T>) {
        let mut items: Vec<KeyedItem<T>> = Vec::new();
        let mut i: usize = 0;
        while i < self.len()
            invariant
                i <= self.len(),
                items@.len() == i,
                forall|k: int| 0 <= k < i ==> cloned(self@[k], (#[trigger] items@[k]).item()),
                forall|k: int|
                    0 <= k < i ==> call_ensures(
                        T::get_reactive_key,
                        (&self@[k],),
                        (#[trigger] items@[k]).key(),
                    ),
            decreases self.len() - i,
        {
            let item = &self[i];
            items.push(KeyedItem { key: item.get_reactive_key(), item: item.clone() });
            i = i + 1;
        }
        ReactiveList { items }
    }
}

} // verus!
