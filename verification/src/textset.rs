//! An insertion-ordered collection of owned or borrowed texts, looked up by
//! content. It backs the caches and registries of `string_storage` and
//! `string_cache`.

use crate::text::str_eq;
use vstd::prelude::*;

verus! {

/// A value that holds a text.
pub trait TextKey {
    spec fn text(&self) -> Seq<char>;

    fn as_text(&self) -> (r: &str)
        ensures
            r@ == self.text(),
    ;
}

impl<'a> TextKey for &'a str {
    open spec fn text(&self) -> Seq<char> {
        (**self)@
    }

    fn as_text(&self) -> (r: &str) {
        *self
    }
}

impl TextKey for String {
    open spec fn text(&self) -> Seq<char> {
        self@
    }

    fn as_text(&self) -> (r: &str) {
        self.as_str()
    }
}

/// The texts held by `keys`, in order.
pub open spec fn texts_of<K: TextKey>(keys: Seq<K>) -> Seq<Seq<char>> {
    Seq::new(keys.len(), |i: int| keys[i].text())
}

/// Whether one of `keys` holds the text `t`.
pub open spec fn holds_text<K: TextKey>(keys: Seq<K>, t: Seq<char>) -> bool {
    exists|i: int| 0 <= i < keys.len() && #[trigger] keys[i].text() == t
}

/// Whether no two of `keys` hold the same text.
pub open spec fn distinct_texts<K: TextKey>(keys: Seq<K>) -> bool {
    forall|i: int, j: int|
        0 <= i < keys.len() && 0 <= j < keys.len() && i != j ==> #[trigger] keys[i].text()
            != #[trigger] keys[j].text()
}

/// Appending a key that holds a new text keeps the texts distinct.
pub proof fn lemma_distinct_push<K: TextKey>(keys: Seq<K>, k: K)
    requires
        distinct_texts(keys),
        !holds_text(keys, k.text()),
    ensures
        distinct_texts(keys.push(k)),
{
    let ks = keys.push(k);
    assert forall|i: int, j: int|
        0 <= i < ks.len() && 0 <= j < ks.len() && i != j implies #[trigger] ks[i].text()
            != #[trigger] ks[j].text() by {
        if i == keys.len() {
            assert(keys[j].text() == ks[j].text());
        } else if j == keys.len() {
            assert(keys[i].text() == ks[i].text());
        } else {
            assert(keys[i] == ks[i] && keys[j] == ks[j]);
        }
    }
}

pub proof fn lemma_texts_push<K: TextKey>(keys: Seq<K>, k: K)
    ensures
        texts_of(keys.push(k)) == texts_of(keys).push(k.text()),
{
    assert(texts_of(keys.push(k)) =~= texts_of(keys).push(k.text()));
}

pub proof fn lemma_holds_contains<K: TextKey>(keys: Seq<K>, t: Seq<char>)
    ensures
        holds_text(keys, t) == texts_of(keys).contains(t),
{
    if holds_text(keys, t) {
        let i = choose|i: int| 0 <= i < keys.len() && #[trigger] keys[i].text() == t;
        assert(texts_of(keys)[i] == t);
    }
    if texts_of(keys).contains(t) {
        let i = choose|i: int| 0 <= i < texts_of(keys).len() && texts_of(keys)[i] == t;
        assert(keys[i].text() == t);
    }
}

pub proof fn lemma_distinct_no_duplicates<K: TextKey>(keys: Seq<K>)
    ensures
        distinct_texts(keys) == texts_of(keys).no_duplicates(),
{
    let ts = texts_of(keys);
    if distinct_texts(keys) {
        assert forall|i: int, j: int| 0 <= i < ts.len() && 0 <= j < ts.len() && i != j implies ts[i] != ts[j] by {
            assert(keys[i].text() != keys[j].text());
        }
    }
    if ts.no_duplicates() {
        assert forall|i: int, j: int|
            0 <= i < keys.len() && 0 <= j < keys.len() && i != j implies #[trigger] keys[i].text()
                != #[trigger] keys[j].text() by {
            assert(ts[i] != ts[j]);
        }
    }
}

/// A collection of keys, each found by the text it holds. Keys are kept in
/// a vector in the order they were added and found by a linear scan, so a
/// lookup costs time proportional to the number of keys (up to the bound of
/// the cache or registry that holds them) where a hash set would take
/// constant time; what the contracts say of the contents is the same.
pub struct TextSet<K> {
    items: Vec<K>,
}

impl<K: TextKey> TextSet<K> {
    /// The keys in the order they were added.
    pub closed spec fn keys(&self) -> Seq<K> {
        self.items@
    }

    /// An empty collection.
    pub fn new() -> (r: Self)
        ensures
            r.keys() == Seq::<K>::empty(),
    {
        TextSet { items: Vec::new() }
    }

    /// How many keys are held.
    pub fn len(&self) -> (r: usize)
        ensures
            r == self.keys().len(),
    {
        self.items.len()
    }

    /// The position of the key that holds `s`, if one does.
    pub fn find(&self, s: &str) -> (r: Option<usize>)
        ensures
            match r {
                Some(i) => i < self.keys().len() && self.keys()[i as int].text() == s@,
                None => !holds_text(self.keys(), s@),
            },
    {
        let n = self.items.len();
        let mut i: usize = 0;
        while i < n
            invariant
                n == self.items@.len(),
                i <= n,
                forall|j: int| 0 <= j < i ==> #[trigger] self.items@[j].text() != s@,
            decreases n - i,
        {
            if str_eq(self.items[i].as_text(), s) {
                return Some(i);
            }
            i = i + 1;
        }
        None
    }

    /// The key at position `i`.
    pub fn get(&self, i: usize) -> (r: &K)
        requires
            i < self.keys().len(),
        ensures
            *r == self.keys()[i as int],
    {
        &self.items[i]
    }

    /// Add a key at the end.
    pub fn push(&mut self, k: K)
        ensures
            final(self).keys() == old(self).keys().push(k),
    {
        self.items.push(k);
    }

    /// Remove every key.
    pub fn clear(&mut self)
        ensures
            final(self).keys() == Seq::<K>::empty(),
    {
        self.items.clear();
    }
}

} // verus!
