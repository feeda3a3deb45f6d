//! Maps from texts that keep their keys in order.

use vstd::prelude::*;

use crate::text::{comes_before, same_text};

verus! {

broadcast use vstd::string::group_string_axioms;

/// Whether texts stand in strictly ascending order.
pub open spec fn ascending(texts: Seq<Seq<char>>) -> bool {
    forall|i: int, j: int|
        0 <= i < j < texts.len() ==> #[trigger] crate::text::text_before(texts[i], texts[j])
}

/// Texts in strictly ascending order are all different.
pub proof fn lemma_ascending_is_unique(texts: Seq<Seq<char>>)
    requires
        ascending(texts),
    ensures
        texts.no_duplicates(),
{
    assert forall|i: int, j: int|
        0 <= i < texts.len() && 0 <= j < texts.len() && i != j implies texts[i] != texts[j] by {
        if i < j {
            assert(crate::text::text_before(texts[i], texts[j]));
        } else {
            assert(crate::text::text_before(texts[j], texts[i]));
        }
        crate::text::lemma_text_before_irreflexive(texts[i]);
    }
}

/// Texts have only one ascending order.
pub proof fn law_texts_have_one_order(first: Seq<Seq<char>>, second: Seq<Seq<char>>)
    requires
        ascending(first),
        ascending(second),
        first.to_set() == second.to_set(),
    ensures
        first == second,
    decreases first.len(),
{
    if first.len() == 0 || second.len() == 0 {
        if first.len() > 0 {
            assert(first.to_set().contains(first[0]));
        }
        if second.len() > 0 {
            assert(second.to_set().contains(second[0]));
        }
        assert(first =~= second);
    } else {
        lemma_ascending_is_unique(first);
        lemma_ascending_is_unique(second);
        assert(first[0] == second[0]) by {
            assert(second.to_set().contains(second[0]));
            assert(first.to_set().contains(first[0]));
            let i = first.index_of(second[0]);
            let j = second.index_of(first[0]);
            assert(first[i] == second[0] && second[j] == first[0]);
            if i > 0 && j > 0 {
                assert(crate::text::text_before(first[0], first[i]));
                assert(crate::text::text_before(second[0], second[j]));
                crate::text::lemma_text_before_transitive(first[0], second[0], first[0]);
                crate::text::lemma_text_before_irreflexive(first[0]);
            }
        }
        let a = first.drop_first();
        let b = second.drop_first();
        assert(ascending(a)) by {
            assert forall|i: int, j: int| 0 <= i < j < a.len() implies
                #[trigger] crate::text::text_before(a[i], a[j]) by {
                assert(crate::text::text_before(first[i + 1], first[j + 1]));
            }
        }
        assert(ascending(b)) by {
            assert forall|i: int, j: int| 0 <= i < j < b.len() implies
                #[trigger] crate::text::text_before(b[i], b[j]) by {
                assert(crate::text::text_before(second[i + 1], second[j + 1]));
            }
        }
        assert(a.to_set() =~= b.to_set()) by {
            assert forall|text: Seq<char>| a.to_set().contains(text) implies b.to_set().contains(
                text,
            ) by {
                let i = a.index_of(text);
                assert(first[i + 1] == text);
                assert(first.to_set().contains(text));
                let j = second.index_of(text);
                assert(second[j] == text);
                assert(b[j - 1] == text);
            }
            assert forall|text: Seq<char>| b.to_set().contains(text) implies a.to_set().contains(
                text,
            ) by {
                let i = b.index_of(text);
                assert(second[i + 1] == text);
                assert(second.to_set().contains(text));
                let j = first.index_of(text);
                assert(first[j] == text);
                assert(a[j - 1] == text);
            }
        }
        law_texts_have_one_order(a, b);
        assert(first =~= seq![first[0]] + a);
        assert(second =~= seq![second[0]] + b);
    }
}

/// The keys of a sequence of entries.
pub open spec fn keys_of<V>(entries: Seq<(String, V)>) -> Seq<Seq<char>> {
    entries.map_values(|entry: (String, V)| entry.0@)
}

/// What entries hold under each key.
pub open spec fn entries_map<V>(entries: Seq<(String, V)>) -> Map<Seq<char>, V> {
    Map::new(
        |key: Seq<char>| keys_of(entries).contains(key),
        |key: Seq<char>| entries[keys_of(entries).index_of(key)].1,
    )
}

/// Each entry in ascending order is what the map holds under its key.
proof fn lemma_entry_at<V>(entries: Seq<(String, V)>, i: int)
    requires
        ascending(keys_of(entries)),
        0 <= i < entries.len(),
    ensures
        entries_map(entries).contains_key(entries[i].0@),
        entries_map(entries)[entries[i].0@] == entries[i].1,
{
    let keys = keys_of(entries);
    lemma_ascending_is_unique(keys);
    assert(keys[i] == entries[i].0@);
    assert(keys.contains(keys[i]));
    let k = keys.index_of(keys[i]);
    assert(keys[k] == keys[i]);
    assert(k == i);
}

proof fn lemma_inserted<V>(entries: Seq<(String, V)>, place: int, entry: (String, V))
    requires
        ascending(keys_of(entries)),
        0 <= place <= entries.len(),
        forall|i: int|
            0 <= i < place ==> #[trigger] crate::text::text_before(
                keys_of(entries)[i],
                entry.0@,
            ),
        forall|i: int|
            place <= i < entries.len() ==> !#[trigger] crate::text::text_before(
                keys_of(entries)[i],
                entry.0@,
            ),
        !keys_of(entries).contains(entry.0@),
    ensures
        ascending(keys_of(entries.insert(place, entry))),
        entries_map(entries.insert(place, entry)) == entries_map(entries).insert(
            entry.0@,
            entry.1,
        ),
{
    let id = entry.0@;
    let keys = keys_of(entries);
    let after = entries.insert(place, entry);
    let keys_after = keys_of(after);
    assert(keys_after =~= keys.insert(place, id));
    assert forall|i: int, j: int| 0 <= i < j < keys_after.len() implies
        #[trigger] crate::text::text_before(keys_after[i], keys_after[j]) by {
        if i == place {
            assert(keys.contains(keys[j - 1]));
            crate::text::lemma_text_before_total(id, keys[j - 1]);
            assert(!crate::text::text_before(keys[j - 1], id));
        } else if j == place {
            assert(crate::text::text_before(keys[i], id));
        } else {
            let k = if i < place {
                i
            } else {
                i - 1
            };
            let l = if j < place {
                j
            } else {
                j - 1
            };
            assert(crate::text::text_before(keys[k], keys[l]));
        }
    }
    let left = entries_map(after);
    let right = entries_map(entries).insert(id, entry.1);
    assert forall|key: Seq<char>| left.contains_key(key) implies right.contains_key(key)
        && left[key] == right[key] by {
        let j = keys_after.index_of(key);
        assert(keys_after[j] == key);
        lemma_entry_at(after, j);
        if j < place {
            lemma_entry_at(entries, j);
        } else if j > place {
            lemma_entry_at(entries, j - 1);
        }
    }
    assert forall|key: Seq<char>| right.contains_key(key) implies left.contains_key(key) by {
        if key == id {
            lemma_entry_at(after, place);
        } else {
            let j = keys.index_of(key);
            assert(keys[j] == key);
            if j < place {
                lemma_entry_at(after, j);
            } else {
                lemma_entry_at(after, j + 1);
            }
        }
    }
    assert(left =~= right);
}

proof fn lemma_replaced<V>(entries: Seq<(String, V)>, place: int, entry: (String, V))
    requires
        ascending(keys_of(entries)),
        0 <= place < entries.len(),
        keys_of(entries)[place] == entry.0@,
    ensures
        ascending(keys_of(entries.update(place, entry))),
        entries_map(entries.update(place, entry)) == entries_map(entries).insert(
            entry.0@,
            entry.1,
        ),
{
    let after = entries.update(place, entry);
    assert(keys_of(after) =~= keys_of(entries));
    let left = entries_map(after);
    let right = entries_map(entries).insert(entry.0@, entry.1);
    lemma_entry_at(after, place);
    assert forall|key: Seq<char>| left.contains_key(key) implies right.contains_key(key)
        && left[key] == right[key] by {
        let j = keys_of(after).index_of(key);
        assert(keys_of(after)[j] == key);
        lemma_entry_at(after, j);
        lemma_entry_at(entries, j);
    }
    assert(left =~= right);
}

proof fn lemma_removed<V>(entries: Seq<(String, V)>, place: int)
    requires
        ascending(keys_of(entries)),
        0 <= place < entries.len(),
    ensures
        ascending(keys_of(entries.remove(place))),
        entries_map(entries.remove(place)) == entries_map(entries).remove(
            entries[place].0@,
        ),
{
    let id = entries[place].0@;
    let keys = keys_of(entries);
    let after = entries.remove(place);
    let keys_after = keys_of(after);
    assert(keys_after =~= keys.remove(place));
    lemma_ascending_is_unique(keys);
    assert(keys[place] == id);
    assert forall|i: int, j: int| 0 <= i < j < keys_after.len() implies
        #[trigger] crate::text::text_before(keys_after[i], keys_after[j]) by {
        let k = if i < place {
            i
        } else {
            i + 1
        };
        let l = if j < place {
            j
        } else {
            j + 1
        };
        assert(crate::text::text_before(keys[k], keys[l]));
    }
    let left = entries_map(after);
    let right = entries_map(entries).remove(id);
    assert forall|key: Seq<char>| left.contains_key(key) implies right.contains_key(key)
        && left[key] == right[key] by {
        let j = keys_after.index_of(key);
        assert(keys_after[j] == key);
        lemma_entry_at(after, j);
        let k = if j < place {
            j
        } else {
            j + 1
        };
        assert(keys[k] == key);
        lemma_entry_at(entries, k);
    }
    assert forall|key: Seq<char>| right.contains_key(key) implies left.contains_key(key) by {
        let j = keys.index_of(key);
        assert(keys[j] == key);
        if j < place {
            lemma_entry_at(after, j);
        } else {
            lemma_entry_at(after, j - 1);
        }
    }
    assert(left =~= right);
}

/// A map from texts, in the order of its keys.
pub struct TextMap<V> {
    entries: Vec<(String, V)>,
}

impl<V> View for TextMap<V> {
    type V = Map<Seq<char>, V>;

    closed spec fn view(&self) -> Map<Seq<char>, V> {
        entries_map(self.entries@)
    }
}

impl<V> TextMap<V> {
    #[verifier::type_invariant]
    closed spec fn is_ordered(self) -> bool {
        ascending(keys_of(self.entries@))
    }

    /// The keys in ascending order.
    pub closed spec fn order(self) -> Seq<Seq<char>> {
        keys_of(self.entries@)
    }

    /// An empty map.
    pub fn new() -> (out: TextMap<V>)
        ensures
            out@ == Map::<Seq<char>, V>::empty(),
    {
        let entries: Vec<(String, V)> = Vec::new();
        assert(entries_map(entries@) =~= Map::empty());
        TextMap { entries }
    }

    /// The first place whose entry does not come before an key.
    fn place(&self, key: &str) -> (out: usize)
        ensures
            out <= self.entries@.len(),
            forall|i: int|
                0 <= i < out ==> #[trigger] crate::text::text_before(
                    keys_of(self.entries@)[i],
                    key@,
                ),
            forall|i: int|
                out <= i < self.entries@.len() ==> !#[trigger] crate::text::text_before(
                    keys_of(self.entries@)[i],
                    key@,
                ),
    {
        proof {
            use_type_invariant(self);
        }
        let mut place: usize = 0;
        while place < self.entries.len() && comes_before(
            &self.entries[place].0,
            key,
        )
            invariant
                place <= self.entries@.len(),
                forall|i: int|
                    0 <= i < place ==> #[trigger] crate::text::text_before(
                        keys_of(self.entries@)[i],
                        key@,
                    ),
            decreases self.entries.len() - place,
        {
            assert(keys_of(self.entries@)[place as int] == self.entries@[place as int].0@);
            place = place + 1;
        }
        proof {
            let keys = keys_of(self.entries@);
            assert forall|i: int| place <= i < self.entries@.len() implies
                !#[trigger] crate::text::text_before(keys[i], key@) by {
                assert(keys[place as int] == self.entries@[place as int].0@);
                if place < i && crate::text::text_before(keys[i], key@) {
                    assert(crate::text::text_before(keys[place as int], keys[i]));
                    crate::text::lemma_text_before_transitive(keys[place as int], keys[i], key@);
                }
            }
        }
        place
    }

    /// Whether there is an entry under an key, and where.
    fn find(&self, key: &str) -> (out: Option<usize>)
        ensures
            match out {
                Some(i) => {
                    &&& i < self.entries@.len()
                    &&& keys_of(self.entries@)[i as int] == key@
                    &&& self@.contains_key(key@)
                    &&& self@[key@] == self.entries@[i as int].1
                },
                None => !self@.contains_key(key@),
            },
    {
        proof {
            use_type_invariant(self);
        }
        let place: usize = self.place(key);
        let ghost keys = keys_of(self.entries@);
        if place < self.entries.len() && same_text(&self.entries[place].0, key) {
            proof {
                assert(keys[place as int] == self.entries@[place as int].0@);
                lemma_entry_at(self.entries@, place as int);
            }
            return Some(place);
        }
        proof {
            if keys.contains(key@) {
                let k = keys.index_of(key@);
                assert(keys[k] == key@);
                crate::text::lemma_text_before_irreflexive(key@);
                if k < place {
                    assert(crate::text::text_before(keys[k], key@));
                } else if k > place {
                    assert(crate::text::text_before(keys[place as int], keys[k]));
                    assert(!crate::text::text_before(keys[place as int], key@));
                } else {
                    assert(keys[place as int] == self.entries@[place as int].0@);
                }
            }
        }
        None
    }

    /// What the map holds under a key.
    pub fn get(&self, key: &str) -> (out: Option<&V>)
        ensures
            match out {
                Some(value) => self@.contains_key(key@) && *value == self@[key@],
                None => !self@.contains_key(key@),
            },
    {
        match self.find(key) {
            Some(i) => Some(&self.entries[i].1),
            None => None,
        }
    }

    /// Puts a value under a key, in the place of one that stood there.
    pub fn insert(&mut self, key: String, value: V)
        ensures
            final(self)@ == old(self)@.insert(key@, value),
    {
        proof {
            use_type_invariant(&*self);
        }
        let found: Option<usize> = self.find(&key);
        let place: usize = self.place(&key);
        let mut entries: Vec<(String, V)> = Vec::new();
        std::mem::swap(&mut entries, &mut self.entries);
        match found {
            Some(i) => {
                proof {
                    lemma_replaced(entries@, i as int, (key, value));
                }
                entries.set(i, (key, value));
            },
            None => {
                proof {
                    lemma_inserted(entries@, place as int, (key, value));
                }
                entries.insert(place, (key, value));
            },
        }
        self.entries = entries;
    }

    /// Removes what the map holds under a key, if anything.
    pub fn remove(&mut self, key: &str)
        ensures
            final(self)@ == old(self)@.remove(key@),
    {
        proof {
            use_type_invariant(&*self);
        }
        match self.find(key) {
            Some(i) => {
                let mut entries: Vec<(String, V)> = Vec::new();
                std::mem::swap(&mut entries, &mut self.entries);
                proof {
                    lemma_removed(entries@, i as int);
                    assert(keys_of(entries@)[i as int] == entries@[i as int].0@);
                }
                let _ = entries.remove(i);
                self.entries = entries;
            },
            None => {
                assert(self@.remove(key@) =~= self@);
            },
        }
    }

    /// The number of keys.
    pub fn len(&self) -> (out: usize)
        ensures
            out == self.order().len(),
            ascending(self.order()),
            self.order().to_set() == self@.dom(),
    {
        proof {
            use_type_invariant(self);
            assert(self.order().to_set() =~= self@.dom());
        }
        self.entries.len()
    }

    /// The key at a place in the order, and what the map holds under it.
    pub fn at(&self, place: usize) -> (out: &(String, V))
        requires
            place < self.order().len(),
        ensures
            out.0@ == self.order()[place as int],
            self@.contains_key(out.0@),
            out.1 == self@[out.0@],
    {
        proof {
            use_type_invariant(self);
            lemma_entry_at(self.entries@, place as int);
        }
        &self.entries[place]
    }
}

/// Whether `places` are all the places in a sequence where something wanted
/// stands, from the first to the last.
pub open spec fn are_all_places<T>(
    all: Seq<T>,
    wanted: spec_fn(T) -> bool,
    places: Seq<int>,
) -> bool {
    &&& forall|k: int|
        0 <= k < places.len() ==> 0 <= #[trigger] places[k] < all.len() && wanted(all[places[k]])
    &&& forall|k: int, l: int|
        0 <= k < l < places.len() ==> #[trigger] places[k] < #[trigger] places[l]
    &&& forall|i: int|
        0 <= i < all.len() && wanted(#[trigger] all[i]) ==> exists|k: int|
            0 <= k < places.len() && #[trigger] places[k] == i
}

/// The places of what is wanted, when one more thing was added to a sequence.
pub proof fn lemma_places_with_one_more<T>(
    all: Seq<T>,
    wanted: spec_fn(T) -> bool,
    places: Seq<int>,
) -> (grown: Seq<int>)
    requires
        all.len() > 0,
        are_all_places(all.drop_last(), wanted, places),
    ensures
        are_all_places(all, wanted, grown),
        grown == if wanted(all.last()) {
            places.push(all.len() - 1)
        } else {
            places
        },
{
    let grown = if wanted(all.last()) {
        places.push(all.len() - 1)
    } else {
        places
    };
    assert forall|i: int| 0 <= i < all.len() && wanted(#[trigger] all[i]) implies exists|k: int|
        0 <= k < grown.len() && #[trigger] grown[k] == i by {
        if i < all.len() - 1 {
            assert(wanted(all.drop_last()[i]));
            let k = choose|k: int| 0 <= k < places.len() && #[trigger] places[k] == i;
            assert(grown[k] == i);
        } else {
            assert(grown[grown.len() - 1] == i);
        }
    }
    assert forall|k: int| 0 <= k < grown.len() implies 0 <= #[trigger] grown[k] < all.len()
        && wanted(all[grown[k]]) by {
        if k < places.len() {
            assert(grown[k] == places[k]);
            assert(all.drop_last()[places[k]] == all[places[k]]);
        }
    }
    assert forall|k: int, l: int| 0 <= k < l < grown.len() implies #[trigger] grown[k]
        < #[trigger] grown[l] by {
        assert(grown[k] == places[k]);
        if l < places.len() {
            assert(grown[l] == places[l]);
        }
    }
    grown
}

}
