//! `ConfigMap`: the string-to-string map behind the SuSFS Manager config.
//!
//! Entries are kept in insertion order with distinct keys; the abstract
//! view is a `Map` from key characters to value characters.
use vstd::prelude::*;

verus! {

/// Fold a sequence of `(key, value)` records into a map, later records
/// overriding earlier ones with the same key.
pub open spec fn map_of(es: Seq<(Seq<char>, Seq<char>)>) -> Map<Seq<char>, Seq<char>>
    decreases es.len(),
{
    if es.len() == 0 {
        Map::empty()
    } else {
        map_of(es.drop_last()).insert(es.last().0, es.last().1)
    }
}

/// No two records share a key.
pub open spec fn keys_distinct(es: Seq<(Seq<char>, Seq<char>)>) -> bool {
    forall|i: int, j: int| 0 <= i < j < es.len() ==> #[trigger] es[i].0 != #[trigger] es[j].0
}

/// Index of the first record whose key is `k`, if any.
pub open spec fn index_of_key(es: Seq<(Seq<char>, Seq<char>)>, k: Seq<char>) -> int
    decreases es.len(),
{
    if es.len() == 0 {
        -1
    } else if es[0].0 == k {
        0
    } else {
        let r = index_of_key(es.drop_first(), k);
        if r < 0 { -1 } else { r + 1 }
    }
}

/// Domain of the fold is exactly the set of keys present.
pub proof fn lemma_map_of_dom(es: Seq<(Seq<char>, Seq<char>)>, k: Seq<char>)
    ensures
        map_of(es).dom().contains(k) <==> exists|i: int| 0 <= i < es.len() && #[trigger] es[i].0 == k,
    decreases es.len(),
{
    if es.len() > 0 {
        lemma_map_of_dom(es.drop_last(), k);
        if map_of(es.drop_last()).dom().contains(k) {
            let i = choose|i: int| 0 <= i < es.drop_last().len() && #[trigger] es.drop_last()[i].0 == k;
            assert(es[i].0 == k);
        }
        if exists|i: int| 0 <= i < es.len() && #[trigger] es[i].0 == k {
            let i = choose|i: int| 0 <= i < es.len() && #[trigger] es[i].0 == k;
            if i < es.len() - 1 {
                assert(es.drop_last()[i].0 == k);
            }
        }
    }
}

/// With distinct keys, the value of a key is the value of its record.
pub proof fn lemma_map_of_value(es: Seq<(Seq<char>, Seq<char>)>, i: int)
    requires
        keys_distinct(es),
        0 <= i < es.len(),
    ensures
        map_of(es).dom().contains(es[i].0),
        map_of(es)[es[i].0] == es[i].1,
    decreases es.len(),
{
    lemma_map_of_dom(es, es[i].0);
    if i < es.len() - 1 {
        let d = es.drop_last();
        assert(keys_distinct(d)) by {
            assert forall|a: int, b: int| 0 <= a < b < d.len() implies #[trigger] d[a].0 != #[trigger] d[b].0 by {
                assert(d[a] == es[a] && d[b] == es[b]);
            }
        }
        assert(d[i] == es[i]);
        lemma_map_of_value(d, i);
        assert(es.last().0 != es[i].0);
    }
}

/// The map of a record sequence with distinct keys has one key per record.
pub proof fn lemma_map_of_len(es: Seq<(Seq<char>, Seq<char>)>)
    requires
        keys_distinct(es),
    ensures
        map_of(es).dom().finite(),
        map_of(es).dom().len() == es.len(),
    decreases es.len(),
{
    if es.len() > 0 {
        let d = es.drop_last();
        assert(keys_distinct(d)) by {
            assert forall|a: int, b: int| 0 <= a < b < d.len() implies #[trigger] d[a].0 != #[trigger] d[b].0 by {
                assert(d[a] == es[a] && d[b] == es[b]);
            }
        }
        lemma_map_of_len(d);
        lemma_map_of_dom(d, es.last().0);
        if map_of(d).dom().contains(es.last().0) {
            let i = choose|i: int| 0 <= i < d.len() && #[trigger] d[i].0 == es.last().0;
            assert(es[i].0 == es[es.len() - 1].0);
        }
    }
}

/// A string-keyed map whose entries keep their insertion order.
pub struct ConfigMap {
    entries: Vec<(String, String)>,
}

impl ConfigMap {
    /// The entries, in order, as character sequences.
    pub closed spec fn entry_seq(&self) -> Seq<(Seq<char>, Seq<char>)> {
        self.entries@.map_values(|e: (String, String)| (e.0@, e.1@))
    }

    #[verifier::type_invariant]
    closed spec fn distinct(&self) -> bool {
        keys_distinct(self.entry_seq())
    }

    /// An empty map.
    pub fn new() -> (r: ConfigMap)
        ensures
            r.entry_seq() == Seq::<(Seq<char>, Seq<char>)>::empty(),
            r@ == Map::<Seq<char>, Seq<char>>::empty(),
    {
        let r = ConfigMap { entries: Vec::new() };
        assert(r.entry_seq() =~= Seq::<(Seq<char>, Seq<char>)>::empty());
        r
    }

    /// Number of entries.
    pub fn len(&self) -> (n: usize)
        ensures
            n == self.entry_seq().len(),
            n == self@.dom().len(),
    {
        proof {
            use_type_invariant(self);
            lemma_map_of_len(self.entry_seq());
        }
        self.entries.len()
    }

    /// Position of `key` among the entries.
    fn find(&self, key: &str) -> (r: Option<usize>)
        ensures
            match r {
                Some(i) => i < self.entry_seq().len() && self.entry_seq()[i as int].0 == key@,
                None => forall|i: int| 0 <= i < self.entry_seq().len() ==> #[trigger] self.entry_seq()[i].0 != key@,
            },
    {
        let k = key.to_owned();
        let mut i: usize = 0;
        while i < self.entries.len()
            invariant
                i <= self.entries@.len(),
                k@ == key@,
                forall|j: int| 0 <= j < i ==> #[trigger] self.entry_seq()[j].0 != key@,
            decreases self.entries@.len() - i,
        {
            if self.entries[i].0 == k {
                return Some(i);
            }
            i = i + 1;
        }
        None
    }

    /// The value stored for `key`.
    pub fn get(&self, key: &str) -> (r: Option<&String>)
        ensures
            match r {
                Some(v) => self@.dom().contains(key@) && self@[key@] == v@,
                None => !self@.dom().contains(key@),
            },
    {
        proof {
            use_type_invariant(self);
            lemma_map_of_dom(self.entry_seq(), key@);
        }
        match self.find(key) {
            Some(i) => {
                proof { lemma_map_of_value(self.entry_seq(), i as int); }
                Some(&self.entries[i].1)
            },
            None => None,
        }
    }

    /// Store `value` under `key`, replacing any earlier value in place.
    pub fn insert(&mut self, key: String, value: String)
        ensures
            final(self)@ == old(self)@.insert(key@, value@),
            old(self)@.dom().contains(key@) ==> final(self).entry_seq().len() == old(self).entry_seq().len(),
            !old(self)@.dom().contains(key@) ==> final(self).entry_seq() == old(self).entry_seq().push((key@, value@)),
    {
        proof {
            use_type_invariant(&*self);
            lemma_map_of_dom(self.entry_seq(), key@);
        }
        let ghost old_es = self.entry_seq();
        match self.find(key.as_str()) {
            Some(i) => {
                let mut es: Vec<(String, String)> = Vec::new();
                std::mem::swap(&mut es, &mut self.entries);
                es.set(i, (key, value));
                let ghost new_es = es@.map_values(|e: (String, String)| (e.0@, e.1@));
                assert(new_es =~= old_es.update(i as int, (key@, value@)));
                assert(keys_distinct(new_es));
                proof {
                    lemma_map_of_dom(new_es, key@);
                    assert forall|k: Seq<char>| #![auto] map_of(new_es).dom().contains(k) <==> old(self)@.insert(key@, value@).dom().contains(k) by {
                        lemma_map_of_dom(new_es, k);
                        lemma_map_of_dom(old_es, k);
                        if exists|j: int| 0 <= j < old_es.len() && #[trigger] old_es[j].0 == k {
                            let j = choose|j: int| 0 <= j < old_es.len() && #[trigger] old_es[j].0 == k;
                            if j != i { assert(new_es[j].0 == k); }
                        }
                        if exists|j: int| 0 <= j < new_es.len() && #[trigger] new_es[j].0 == k {
                            let j = choose|j: int| 0 <= j < new_es.len() && #[trigger] new_es[j].0 == k;
                            if j != i { assert(old_es[j].0 == k); }
                        }
                    }
                    assert forall|k: Seq<char>| #![auto] map_of(new_es).dom().contains(k) implies map_of(new_es)[k] == old(self)@.insert(key@, value@)[k] by {
                        lemma_map_of_dom(new_es, k);
                        let j = choose|j: int| 0 <= j < new_es.len() && #[trigger] new_es[j].0 == k;
                        lemma_map_of_value(new_es, j);
                        if j != i {
                            lemma_map_of_value(old_es, j);
                        }
                    }
                    assert(map_of(new_es) =~= old(self)@.insert(key@, value@));
                }
                self.entries = es;
            },
            None => {
                let mut es: Vec<(String, String)> = Vec::new();
                std::mem::swap(&mut es, &mut self.entries);
                es.push((key, value));
                let ghost new_es = es@.map_values(|e: (String, String)| (e.0@, e.1@));
                assert(new_es =~= old_es.push((key@, value@)));
                assert(new_es.drop_last() =~= old_es);
                self.entries = es;
            },
        }
    }

    /// Delete `key`, keeping the order of the other entries.
    pub fn remove(&mut self, key: &str)
        ensures
            final(self)@ == old(self)@.remove(key@),
    {
        proof {
            use_type_invariant(&*self);
            lemma_map_of_dom(self.entry_seq(), key@);
        }
        let ghost old_es = self.entry_seq();
        match self.find(key) {
            Some(i) => {
                let mut es: Vec<(String, String)> = Vec::new();
                std::mem::swap(&mut es, &mut self.entries);
                es.remove(i);
                let ghost new_es = es@.map_values(|e: (String, String)| (e.0@, e.1@));
                assert(new_es =~= old_es.remove(i as int));
                proof {
                    assert forall|a: int, b: int| 0 <= a < b < new_es.len() implies #[trigger] new_es[a].0 != #[trigger] new_es[b].0 by {
                        let a2 = if a < i { a } else { a + 1 };
                        let b2 = if b < i { b } else { b + 1 };
                        assert(new_es[a] == old_es[a2] && new_es[b] == old_es[b2]);
                    }
                    assert forall|k: Seq<char>| #![auto] map_of(new_es).dom().contains(k) <==> old(self)@.remove(key@).dom().contains(k) by {
                        lemma_map_of_dom(new_es, k);
                        lemma_map_of_dom(old_es, k);
                        if exists|j: int| 0 <= j < old_es.len() && #[trigger] old_es[j].0 == k {
                            let j = choose|j: int| 0 <= j < old_es.len() && #[trigger] old_es[j].0 == k;
                            if j < i { assert(new_es[j].0 == k); }
                            if j > i { assert(new_es[j - 1].0 == k); }
                        }
                        if exists|j: int| 0 <= j < new_es.len() && #[trigger] new_es[j].0 == k {
                            let j = choose|j: int| 0 <= j < new_es.len() && #[trigger] new_es[j].0 == k;
                            let j2 = if j < i { j } else { j + 1 };
                            assert(old_es[j2].0 == k);
                        }
                    }
                    assert forall|k: Seq<char>| #![auto] map_of(new_es).dom().contains(k) implies map_of(new_es)[k] == old(self)@.remove(key@)[k] by {
                        lemma_map_of_dom(new_es, k);
                        let j = choose|j: int| 0 <= j < new_es.len() && #[trigger] new_es[j].0 == k;
                        lemma_map_of_value(new_es, j);
                        let j2 = if j < i { j } else { j + 1 };
                        lemma_map_of_value(old_es, j2);
                    }
                    assert(map_of(new_es) =~= old(self)@.remove(key@));
                }
                self.entries = es;
            },
            None => {
                assert(old(self)@.remove(key@) =~= old(self)@);
            },
        }
    }

    /// Entry `i`: its key and value.
    pub fn entry(&self, i: usize) -> (r: (&String, &String))
        requires
            i < self.entry_seq().len(),
        ensures
            r.0@ == self.entry_seq()[i as int].0,
            r.1@ == self.entry_seq()[i as int].1,
    {
        (&self.entries[i].0, &self.entries[i].1)
    }
}

impl View for ConfigMap {
    type V = Map<Seq<char>, Seq<char>>;

    open spec fn view(&self) -> Map<Seq<char>, Seq<char>> {
        map_of(self.entry_seq())
    }
}

} // verus!
