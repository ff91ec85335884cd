//! Lists and tables by name.
use vstd::prelude::*;

verus! {

/// Where a key first stands in a list.
pub open spec fn first_key(keys: Seq<Seq<char>>, key: Seq<char>) -> Option<int>
    decreases keys.len(),
{
    if keys.len() == 0 {
        None
    } else {
        match first_key(keys.drop_last(), key) {
            Some(i) => Some(i),
            None => if keys.last() == key {
                Some(keys.len() - 1)
            } else {
                None
            },
        }
    }
}

/// The first place of a key is a place of the key, and no earlier one is.
pub proof fn law_first_key(keys: Seq<Seq<char>>, key: Seq<char>)
    ensures
        match first_key(keys, key) {
            Some(i) => 0 <= i < keys.len() && keys[i] == key && (forall|j: int|
                0 <= j < i ==> #[trigger] keys[j] != key),
            None => forall|j: int| 0 <= j < keys.len() ==> #[trigger] keys[j] != key,
        },
    decreases keys.len(),
{
    if keys.len() > 0 {
        let head = keys.drop_last();
        law_first_key(head, key);
        assert forall|j: int| 0 <= j < head.len() implies head[j] == keys[j] by {
        }
        match first_key(head, key) {
            Some(i) => {
                assert(head[i] == keys[i]);
                assert forall|j: int| 0 <= j < i implies #[trigger] keys[j] != key by {
                    assert(head[j] != key);
                }
            },
            None => {
                assert forall|j: int| 0 <= j < keys.len() - 1 implies #[trigger] keys[j] != key by {
                    assert(head[j] != key);
                }
            },
        }
    }
}

/// The only place that the key first stands at.
proof fn lemma_first_key_is(keys: Seq<Seq<char>>, key: Seq<char>, i: int)
    requires
        0 <= i < keys.len(),
        keys[i] == key,
        forall|j: int| 0 <= j < i ==> #[trigger] keys[j] != key,
    ensures
        first_key(keys, key) == Some(i),
{
    law_first_key(keys, key);
}

/// An entry with a name.
pub trait Keyed: Sized {
    /// The name.
    spec fn key_text(&self) -> Seq<char>;

    /// The name.
    fn key(&self) -> (k: &String)
        ensures
            k@ == self.key_text(),
    ;
}

/// The names of some entries.
pub open spec fn keys_of<E: Keyed>(entries: Seq<E>) -> Seq<Seq<char>> {
    entries.map_values(|e: E| e.key_text())
}

/// The place of the first entry of a name.
pub fn find_key<E: Keyed>(entries: &Vec<E>, key: &String) -> (r: Option<usize>)
    ensures
        match first_key(keys_of(entries@), key@) {
            Some(i) => r matches Some(k) && k == i && i < entries@.len(),
            None => r is None,
        },
{
    let ghost keys = keys_of(entries@);
    proof {
        law_first_key(keys, key@);
    }
    let mut i: usize = 0;
    while i < entries.len()
        invariant
            i <= entries@.len(),
            keys == keys_of(entries@),
            forall|j: int| 0 <= j < i ==> #[trigger] keys[j] != key@,
        decreases entries@.len() - i,
    {
        if *entries[i].key() == *key {
            proof {
                lemma_first_key_is(keys, key@, i as int);
            }
            return Some(i);
        }
        i += 1;
    }
    None
}

/// A value with its name.
pub struct Named<V> {
    pub key: String,
    pub value: V,
}

impl<V> Keyed for Named<V> {
    open spec fn key_text(&self) -> Seq<char> {
        self.key@
    }

    fn key(&self) -> (k: &String) {
        &self.key
    }
}

/// Values by name, no name twice.
pub struct Table<V> {
    entries: Vec<Named<V>>,
}

impl<V> Table<V> {
    /// The value of every name.
    pub closed spec fn view(&self) -> Map<Seq<char>, V> {
        Map::new(
            |k: Seq<char>| first_key(keys_of(self.entries@), k) is Some,
            |k: Seq<char>| self.entries@[first_key(keys_of(self.entries@), k)->Some_0].value,
        )
    }

    /// No name stands twice.
    pub closed spec fn wf(&self) -> bool {
        keys_of(self.entries@).no_duplicates()
    }

    /// How many values there are.
    pub closed spec fn count(&self) -> nat {
        self.entries@.len()
    }

    /// The value of a name, where there is one.
    pub open spec fn find(&self, key: Seq<char>) -> Option<V> {
        if self@.contains_key(key) {
            Some(self@[key])
        } else {
            None
        }
    }

    /// A table without values.
    pub fn new() -> (t: Self)
        ensures
            t.wf(),
            t@ == Map::<Seq<char>, V>::empty(),
    {
        let t = Table { entries: Vec::new() };
        assert(t@ =~= Map::<Seq<char>, V>::empty());
        t
    }

    /// The value of a name.
    pub fn get(&self, key: &String) -> (r: Option<&V>)
        ensures
            match self.find(key@) {
                Some(v) => r matches Some(x) && *x == v,
                None => r is None,
            },
    {
        match find_key(&self.entries, key) {
            Some(i) => Some(&self.entries[i].value),
            None => None,
        }
    }

    /// Puts a value under a name, in place of the one that is there, if one is.
    pub fn insert(&mut self, key: String, value: V)
        ensures
            old(self).wf() ==> final(self).wf(),
            final(self)@ == old(self)@.insert(key@, value),
    {
        let ghost before = *self;
        let ghost name = key@;
        let ghost old_keys = keys_of(before.entries@);
        match find_key(&self.entries, &key) {
            Some(i) => {
                self.entries.set(i, Named { key, value });
                proof {
                    law_first_key(old_keys, name);
                    assert(keys_of(self.entries@) =~= old_keys);
                    assert forall|k: Seq<char>| #[trigger] self@.contains_key(k) implies self@[k]
                        == before@.insert(name, value)[k] by {
                        law_first_key(old_keys, k);
                    }
                    assert(self@ =~= before@.insert(name, value));
                }
            },
            None => {
                self.entries.push(Named { key, value });
                proof {
                    let keys = keys_of(self.entries@);
                    law_first_key(old_keys, name);
                    assert(keys =~= old_keys.push(name));
                    assert(keys.drop_last() =~= old_keys);
                    assert forall|k: Seq<char>| #[trigger]
                        self@.contains_key(k) == before@.insert(name, value).contains_key(k) by {
                    }
                    assert forall|k: Seq<char>| #[trigger] self@.contains_key(k) implies self@[k]
                        == before@.insert(name, value)[k] by {
                        law_first_key(old_keys, k);
                    }
                    assert(self@ =~= before@.insert(name, value));
                    if before.wf() {
                        assert(keys.no_duplicates());
                    }
                }
            },
        }
    }
}

/// A table without a name twice holds as many values as it has names.
pub proof fn law_every_value_has_its_name<V>(t: Table<V>)
    requires
        t.wf(),
    ensures
        t@.dom().finite(),
        t@.dom().len() == t.count(),
{
    let keys = keys_of(t.entries@);
    keys.unique_seq_to_set();
    assert forall|k: Seq<char>| t@.dom().contains(k) == #[trigger] keys.to_set().contains(k) by {
        law_first_key(keys, k);
        if keys.contains(k) {
            let j = choose|j: int| 0 <= j < keys.len() && keys[j] == k;
            assert(keys[j] == k);
        }
    }
    assert(keys.to_set() =~= t@.dom());
}

} // verus!
