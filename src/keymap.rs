//! A map from text keys to text values in which the first value stored
//! under a key is the one kept.
use vstd::prelude::*;

verus! {

broadcast use vstd::set::group_set_axioms;

/// Keys and values in insertion order, each key once.
pub struct KeyMap {
    entries: Vec<(String, String)>,
    model: Ghost<Map<Seq<char>, Seq<char>>>,
}

impl View for KeyMap {
    type V = Map<Seq<char>, Seq<char>>;

    closed spec fn view(&self) -> Map<Seq<char>, Seq<char>> {
        self.model@
    }
}

impl KeyMap {
    /// The entries and the map agree, and no key is stored twice.
    pub closed spec fn wf(&self) -> bool {
        &&& self.model@.dom().finite()
        &&& self.model@.dom().len() == self.entries@.len()
        &&& forall|i: int, j: int|
            0 <= i < j < self.entries@.len() ==> self.entries@[i].0@ != self.entries@[j].0@
        &&& forall|i: int|
            0 <= i < self.entries@.len() ==> #[trigger] self.model@.contains_key(
                self.entries@[i].0@,
            ) && self.model@[self.entries@[i].0@] == self.entries@[i].1@
        &&& forall|k: Seq<char>|
            #[trigger] self.model@.contains_key(k) ==> exists|i: int|
                0 <= i < self.entries@.len() && self.entries@[i].0@ == k
    }

    pub fn new() -> (r: KeyMap)
        ensures
            r.wf(),
            r@ == Map::<Seq<char>, Seq<char>>::empty(),
    {
        KeyMap { entries: Vec::new(), model: Ghost(Map::empty()) }
    }

    /// The position of `key` among the entries.
    fn find(&self, key: &String) -> (r: Option<usize>)
        requires
            self.wf(),
        ensures
            r is None <==> !self@.contains_key(key@),
            r matches Some(i) ==> i < self.entries@.len() && self.entries@[i as int].0@ == key@,
    {
        let mut i: usize = 0;
        while i < self.entries.len()
            invariant
                self.wf(),
                i <= self.entries@.len(),
                forall|j: int| 0 <= j < i ==> self.entries@[j].0@ != key@,
            decreases self.entries@.len() - i,
        {
            if self.entries[i].0 == *key {
                return Some(i);
            }
            i = i + 1;
        }
        proof {
            if self@.contains_key(key@) {
                let i = choose|i: int| 0 <= i < self.entries@.len() && self.entries@[i].0@ == key@;
                assert(self.entries@[i].0@ != key@);
            }
        }
        None
    }

    /// Stores `value` under `key` unless the key is already present, in which
    /// case the map is left as it is.
    pub fn insert(&mut self, key: String, value: String)
        requires
            old(self).wf(),
        ensures
            final(self).wf(),
            final(self)@ == if old(self)@.contains_key(key@) {
                old(self)@
            } else {
                old(self)@.insert(key@, value@)
            },
    {
        match self.find(&key) {
            Some(_) => {},
            None => {
                let ghost old_map = self.model@;
                let ghost old_entries = self.entries@;
                self.model = Ghost(self.model@.insert(key@, value@));
                self.entries.push((key, value));
                assert(self.model@.dom() =~= old_map.dom().insert(self.entries@.last().0@));
                assert forall|k: Seq<char>| #[trigger] self.model@.contains_key(k) implies exists|
                    i: int,
                |
                    0 <= i < self.entries@.len() && self.entries@[i].0@ == k by {
                    if k != self.entries@.last().0@ {
                        assert(old_map.contains_key(k));
                        let i = choose|i: int| 0 <= i < old_entries.len() && old_entries[i].0@ == k;
                        assert(self.entries@[i] == old_entries[i]);
                    } else {
                        assert(self.entries@[self.entries@.len() - 1].0@ == k);
                    }
                }
                assert forall|i: int|
                    0 <= i < self.entries@.len() implies #[trigger] self.model@.contains_key(
                    self.entries@[i].0@,
                ) && self.model@[self.entries@[i].0@] == self.entries@[i].1@ by {
                    if i < old_entries.len() {
                        assert(self.entries@[i] == old_entries[i]);
                        assert(old_map.contains_key(old_entries[i].0@));
                    }
                }
            },
        }
    }

    /// The value stored under `key`.
    pub fn get(&self, key: &str) -> (r: Option<&str>)
        requires
            self.wf(),
        ensures
            r is Some <==> self@.contains_key(key@),
            r matches Some(v) ==> v@ == self@[key@],
    {
        let k = key.to_owned();
        match self.find(&k) {
            Some(i) => Some(self.entries[i].1.as_str()),
            None => None,
        }
    }

    /// The number of keys.
    pub fn len(&self) -> (r: usize)
        requires
            self.wf(),
        ensures
            r == self@.dom().len(),
    {
        self.entries.len()
    }
}

} // verus!
