//! A small table keyed by text.

use crate::text::same_text;
use vstd::prelude::*;

verus! {

/// Values by text, each text at most once.
#[derive(Debug)]
pub struct TextTable<V> {
    entries: Vec<(String, V)>,
}

/// Whether a list of entries holds a key.
spec fn holds<V>(entries: Seq<(String, V)>, key: Seq<char>) -> bool {
    exists|place: int| 0 <= place < entries.len() && (#[trigger] entries[place]).0@ == key
}

/// The place of a key among entries.
spec fn place_of<V>(entries: Seq<(String, V)>, key: Seq<char>) -> int {
    choose|place: int| 0 <= place < entries.len() && (#[trigger] entries[place]).0@ == key
}

impl<V> View for TextTable<V> {
    type V = Map<Seq<char>, V>;

    closed spec fn view(&self) -> Map<Seq<char>, V> {
        Map::new(
            |key: Seq<char>| holds(self.entries@, key),
            |key: Seq<char>| self.entries@[place_of(self.entries@, key)].1,
        )
    }
}

impl<V> TextTable<V> {
    /// No text occurs twice.
    pub closed spec fn wf(self) -> bool {
        forall|left: int, right: int|
            0 <= left < right < self.entries@.len() ==> (#[trigger] self.entries@[left]).0@ != (
            #[trigger] self.entries@[right]).0@
    }

    /// The texts in the order in which they were entered.
    pub closed spec fn keys(self) -> Seq<Seq<char>> {
        self.entries@.map_values(|entry: (String, V)| entry.0@)
    }

    /// The texts are those of the table, each once.
    pub proof fn keys_are_the_domain(self)
        requires
            self.wf(),
        ensures
            self.keys().no_duplicates(),
            forall|key: Seq<char>| self.keys().contains(key) <==> #[trigger] self@.contains_key(key),
    {
        assert forall|left: int, right: int|
            0 <= left < self.keys().len() && 0 <= right < self.keys().len() && left
                != right implies self.keys()[left] != self.keys()[right] by {
            if left < right {
                assert(self.entries@[left].0@ != self.entries@[right].0@);
            } else {
                assert(self.entries@[right].0@ != self.entries@[left].0@);
            }
        }
        assert forall|key: Seq<char>|
            self.keys().contains(key) <==> #[trigger] self@.contains_key(key) by {
            if self.keys().contains(key) {
                let place = choose|place: int|
                    0 <= place < self.keys().len() && self.keys()[place] == key;
                assert(self.entries@[place].0@ == key);
            }
            if holds(self.entries@, key) {
                let place = place_of(self.entries@, key);
                assert(self.keys()[place] == key);
            }
        }
    }

    proof fn entry_is_held(self, place: int)
        requires
            self.wf(),
            0 <= place < self.entries@.len(),
        ensures
            self@.contains_key(self.entries@[place].0@),
            self@[self.entries@[place].0@] == self.entries@[place].1,
    {
        let key = self.entries@[place].0@;
        assert(holds(self.entries@, key));
        let other = place_of(self.entries@, key);
        assert(self.entries@[other].0@ == key);
        if other < place {
            assert(self.entries@[other].0@ != self.entries@[place].0@);
        }
        if place < other {
            assert(self.entries@[place].0@ != self.entries@[other].0@);
        }
    }

    /// A table of nothing.
    pub fn new() -> (table: Self)
        ensures
            table.wf(),
            table@ == Map::<Seq<char>, V>::empty(),
    {
        let table = TextTable { entries: Vec::new() };
        assert(table@ =~= Map::empty());
        table
    }

    fn find(&self, key: &str) -> (place: Option<usize>)
        requires
            self.wf(),
        ensures
            match place {
                Some(place) => place < self.entries@.len() && self.entries@[place as int].0@
                    == key@ && self@.contains_key(key@) && self@[key@]
                    == self.entries@[place as int].1,
                None => !self@.contains_key(key@),
            },
    {
        let mut place: usize = 0;
        while place < self.entries.len()
            invariant
                self.wf(),
                place <= self.entries@.len(),
                forall|earlier: int|
                    0 <= earlier < place ==> (#[trigger] self.entries@[earlier]).0@ != key@,
            decreases self.entries@.len() - place,
        {
            if same_text(self.entries[place].0.as_str(), key) {
                proof {
                    self.entry_is_held(place as int);
                }
                return Some(place);
            }
            place += 1;
        }
        None
    }

    /// Whether a text is in the table.
    pub fn contains(&self, key: &str) -> (found: bool)
        requires
            self.wf(),
        ensures
            found == self@.contains_key(key@),
    {
        self.find(key).is_some()
    }

    /// The value of a text.
    pub fn get(&self, key: &str) -> (value: Option<&V>)
        requires
            self.wf(),
        ensures
            match value {
                Some(value) => self@.contains_key(key@) && *value == self@[key@],
                None => !self@.contains_key(key@),
            },
    {
        match self.find(key) {
            Some(place) => Some(&self.entries[place].1),
            None => None,
        }
    }

    /// Takes a text out of the table.
    pub fn remove(&mut self, key: &str) -> (value: Option<V>)
        requires
            old(self).wf(),
        ensures
            final(self).wf(),
            final(self)@ == old(self)@.remove(key@),
            match value {
                Some(value) => old(self)@.contains_key(key@) && value == old(self)@[key@],
                None => !old(self)@.contains_key(key@),
            },
    {
        let ghost before = *self;
        match self.find(key) {
            Some(place) => {
                let (_, value) = self.entries.remove(place);
                proof {
                    self.one_less(before, place as int);
                }
                Some(value)
            },
            None => {
                assert(self@ =~= before@.remove(key@));
                None
            },
        }
    }

    proof fn one_less(self, before: Self, place: int)
        requires
            before.wf(),
            0 <= place < before.entries@.len(),
            self.entries@ == before.entries@.remove(place),
        ensures
            self.wf(),
            self@ == before@.remove(before.entries@[place].0@),
    {
        let gone = before.entries@[place].0@;
        let old_entries = before.entries@;
        let entries = self.entries@;
        assert forall|left: int, right: int| 0 <= left < right < entries.len() implies (
        #[trigger] entries[left]).0@ != (#[trigger] entries[right]).0@ by {
            let first = if left < place {
                left
            } else {
                left + 1
            };
            let second = if right < place {
                right
            } else {
                right + 1
            };
            assert(entries[left] == old_entries[first]);
            assert(entries[right] == old_entries[second]);
        }
        assert forall|key: Seq<char>| self@.contains_key(key) == before@.remove(gone).contains_key(
            key,
        ) by {
            if holds(entries, key) {
                let other = place_of(entries, key);
                let first = if other < place {
                    other
                } else {
                    other + 1
                };
                assert(old_entries[first].0@ == key);
                if first < place {
                    assert(old_entries[first].0@ != old_entries[place].0@);
                } else {
                    assert(old_entries[place].0@ != old_entries[first].0@);
                }
            }
            if holds(old_entries, key) && key != gone {
                let other = place_of(old_entries, key);
                let second = if other < place {
                    other
                } else {
                    other - 1
                };
                assert(entries[second] == old_entries[other]);
            }
        }
        assert forall|key: Seq<char>| #[trigger] self@.contains_key(key) implies self@[key]
            == before@[key] by {
            let other = place_of(entries, key);
            let first = if other < place {
                other
            } else {
                other + 1
            };
            assert(old_entries[first] == entries[other]);
            self.entry_is_held(other);
            before.entry_is_held(first);
        }
        assert(self@ =~= before@.remove(gone));
    }

    /// Enters a value for a text, in place of an earlier one.
    pub fn insert(&mut self, key: String, value: V)
        requires
            old(self).wf(),
        ensures
            final(self).wf(),
            final(self)@ == old(self)@.insert(key@, value),
    {
        let ghost given = *self;
        let _ = self.remove(key.as_str());
        let ghost before = *self;
        self.entries.push((key, value));
        proof {
            let entries = self.entries@;
            assert forall|left: int, right: int| 0 <= left < right < entries.len() implies (
            #[trigger] entries[left]).0@ != (#[trigger] entries[right]).0@ by {
                assert(entries[left] == before.entries@[left]);
                if right < before.entries@.len() {
                    assert(entries[right] == before.entries@[right]);
                } else {
                    before.entry_is_held(left);
                }
            }
            assert forall|other: Seq<char>| self@.contains_key(other) == given@.insert(
                key@,
                value,
            ).contains_key(other) by {
                if holds(entries, other) {
                    let place = place_of(entries, other);
                    if place < before.entries@.len() {
                        assert(before.entries@[place].0@ == other);
                        before.entry_is_held(place);
                    }
                }
                if other == key@ {
                    assert(entries[entries.len() - 1].0@ == other);
                } else if given@.contains_key(other) {
                    assert(before@.contains_key(other));
                    let place = place_of(before.entries@, other);
                    assert(entries[place] == before.entries@[place]);
                }
            }
            assert forall|other: Seq<char>| #[trigger] self@.contains_key(other) implies self@[other]
                == given@.insert(key@, value)[other] by {
                let place = place_of(entries, other);
                self.entry_is_held(place);
                if place < before.entries@.len() {
                    assert(entries[place] == before.entries@[place]);
                    before.entry_is_held(place);
                }
            }
            assert(self@ =~= given@.insert(key@, value));
        }
    }

    /// Puts another value at a place.
    pub fn set_at(&mut self, place: usize, value: V)
        requires
            old(self).wf(),
            place < old(self).keys().len(),
        ensures
            final(self).wf(),
            final(self).keys() == old(self).keys(),
            final(self)@ == old(self)@.insert(old(self).keys()[place as int], value),
    {
        let ghost before = *self;
        let key = self.entries[place].0.clone();
        self.entries.set(place, (key, value));
        proof {
            let entries = self.entries@;
            assert forall|other: int| 0 <= other < entries.len() implies (
            #[trigger] entries[other]).0@ == before.entries@[other].0@ by {}
            assert forall|left: int, right: int| 0 <= left < right < entries.len() implies (
            #[trigger] entries[left]).0@ != (#[trigger] entries[right]).0@ by {
                assert(before.entries@[left].0@ != before.entries@[right].0@);
            }
            assert(self.keys() =~= before.keys());
            self.keys_are_the_domain();
            before.keys_are_the_domain();
            let key = before.keys()[place as int];
            assert(before.keys().contains(key));
            assert forall|other: Seq<char>| self@.contains_key(other) == before@.insert(
                key,
                value,
            ).contains_key(other) by {
                assert(before.keys().contains(other) == before@.contains_key(other));
            }
            assert forall|other: Seq<char>| #[trigger] self@.contains_key(other) implies self@[other]
                == before@.insert(key, value)[other] by {
                let found = place_of(entries, other);
                self.entry_is_held(found);
                before.entry_is_held(found);
            }
            assert(self@ =~= before@.insert(key, value));
        }
    }

    /// The number of texts.
    pub fn len(&self) -> (length: usize)
        ensures
            length == self.keys().len(),
    {
        self.entries.len()
    }

    /// The text at a place.
    pub fn key_at(&self, place: usize) -> (key: &str)
        requires
            place < self.keys().len(),
        ensures
            key@ == self.keys()[place as int],
    {
        self.entries[place].0.as_str()
    }

    /// The value at a place.
    pub fn value_at(&self, place: usize) -> (value: &V)
        requires
            self.wf(),
            place < self.keys().len(),
        ensures
            self@.contains_key(self.keys()[place as int]),
            *value == self@[self.keys()[place as int]],
    {
        proof {
            self.entry_is_held(place as int);
        }
        &self.entries[place].1
    }
}

} // verus!
