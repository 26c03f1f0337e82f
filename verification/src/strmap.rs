//! A map from strings, kept in dictionary order of its keys.

use crate::text::{
    chars_of, compare_chars, lemma_lex_irreflexive, lemma_lex_total, lemma_lex_transitive, lex_lt,
    Rank,
};
use vstd::prelude::*;

verus! {

/// A map from strings to `T`, held as entries in dictionary order of their
/// keys, each key once.
#[derive(Debug, PartialEq, Eq)]
pub struct StrMap<T> {
    entries: Vec<(String, T)>,
}

/// The keys of `es` ascend strictly, so that none occurs twice.
pub open spec fn keys_ascend<T>(es: Seq<(String, T)>) -> bool {
    forall|i: int, j: int|
        #![trigger es[i], es[j]]
        0 <= i < j < es.len() ==> lex_lt(es[i].0@, es[j].0@)
}

/// The map that holds the entries of `es`, a later entry replacing an earlier
/// one with the same key.
pub open spec fn to_map<T>(es: Seq<(String, T)>) -> Map<Seq<char>, T>
    decreases es.len(),
{
    if es.len() == 0 {
        Map::empty()
    } else {
        to_map(es.drop_last()).insert(es.last().0@, es.last().1)
    }
}

/// Strings under keys, by their characters.
pub open spec fn texts_of(m: Map<Seq<char>, String>) -> Map<Seq<char>, Seq<char>> {
    m.map_values(|s: String| s@)
}

/// The keys of the map of `es` are the keys of its entries, and each entry's
/// value is the value under its key.
pub proof fn lemma_to_map<T>(es: Seq<(String, T)>)
    requires
        keys_ascend(es),
    ensures
        forall|i: int|
            0 <= i < es.len() ==> to_map(es).contains_key((#[trigger] es[i]).0@) && to_map(
                es,
            )[es[i].0@] == es[i].1,
        forall|k: Seq<char>| #[trigger]
            to_map(es).contains_key(k) ==> exists|i: int|
                0 <= i < es.len() && (#[trigger] es[i]).0@ == k,
    decreases es.len(),
{
    if es.len() > 0 {
        let front = es.drop_last();
        let n = es.len() - 1;
        assert forall|i: int, j: int| 0 <= i < j < front.len() implies lex_lt(
            (#[trigger] front[i]).0@,
            (#[trigger] front[j]).0@,
        ) by {
            assert(front[i] == es[i] && front[j] == es[j]);
        }
        lemma_to_map(front);
        assert forall|i: int| 0 <= i < es.len() implies to_map(es).contains_key(
            (#[trigger] es[i]).0@,
        ) && to_map(es)[es[i].0@] == es[i].1 by {
            if i < n {
                assert(front[i] == es[i]);
                assert(lex_lt(es[i].0@, es[n].0@));
                lemma_lex_irreflexive(es[i].0@);
            }
        }
        assert forall|k: Seq<char>| #[trigger] to_map(es).contains_key(k) implies exists|i: int|
            0 <= i < es.len() && (#[trigger] es[i]).0@ == k by {
            if k == es[n].0@ {
                assert(es[n].0@ == k);
            } else {
                assert(to_map(front).contains_key(k));
                let i = choose|i: int| 0 <= i < front.len() && (#[trigger] front[i]).0@ == k;
                assert(es[i] == front[i]);
            }
        }
    }
}

/// The map of entries with ascending keys has as many keys as there are
/// entries.
pub proof fn lemma_to_map_len<T>(es: Seq<(String, T)>)
    requires
        keys_ascend(es),
    ensures
        to_map(es).dom().finite(),
        to_map(es).len() == es.len(),
    decreases es.len(),
{
    if es.len() > 0 {
        let front = es.drop_last();
        let n = es.len() - 1;
        assert forall|i: int, j: int| 0 <= i < j < front.len() implies lex_lt(
            (#[trigger] front[i]).0@,
            (#[trigger] front[j]).0@,
        ) by {
            assert(front[i] == es[i] && front[j] == es[j]);
        }
        lemma_to_map_len(front);
        lemma_to_map(front);
        if to_map(front).contains_key(es[n].0@) {
            let i = choose|i: int| 0 <= i < front.len() && (#[trigger] front[i]).0@ == es[n].0@;
            assert(front[i] == es[i]);
            assert(lex_lt(es[i].0@, es[n].0@));
            lemma_lex_irreflexive(es[n].0@);
        }
        assert(to_map(es).dom() =~= to_map(front).dom().insert(es[n].0@));
    } else {
        assert(to_map(es).dom() =~= Set::<Seq<char>>::empty());
    }
}

/// Putting an entry where its key belongs adds it to the map.
proof fn lemma_insert_new<T>(es: Seq<(String, T)>, p: int, x: (String, T))
    requires
        keys_ascend(es),
        0 <= p <= es.len(),
        forall|i: int| 0 <= i < p ==> lex_lt((#[trigger] es[i]).0@, x.0@),
        forall|i: int| p <= i < es.len() ==> lex_lt(x.0@, (#[trigger] es[i]).0@),
    ensures
        keys_ascend(es.insert(p, x)),
        to_map(es.insert(p, x)) == to_map(es).insert(x.0@, x.1),
{
    let ns = es.insert(p, x);
    assert forall|i: int, j: int| 0 <= i < j < ns.len() implies lex_lt(
        (#[trigger] ns[i]).0@,
        (#[trigger] ns[j]).0@,
    ) by {
        if i < p {
            assert(ns[i] == es[i]);
        } else if i > p {
            assert(ns[i] == es[i - 1]);
        }
        if j < p {
            assert(ns[j] == es[j]);
        } else if j > p {
            assert(ns[j] == es[j - 1]);
        }
    }
    lemma_to_map(es);
    lemma_to_map(ns);
    let a = to_map(ns);
    let b = to_map(es).insert(x.0@, x.1);
    assert forall|k: Seq<char>|
        #![trigger a.dom().contains(k)]
        #![trigger b.dom().contains(k)]
        a.dom().contains(k) == b.dom().contains(k) && (a.dom().contains(k) ==> a[k] == b[k]) by {
        if a.contains_key(k) {
            let i = choose|i: int| 0 <= i < ns.len() && (#[trigger] ns[i]).0@ == k;
            if i < p {
                assert(ns[i] == es[i]);
                lemma_lex_irreflexive(x.0@);
            } else if i > p {
                assert(ns[i] == es[i - 1]);
                lemma_lex_irreflexive(x.0@);
            } else {
                assert(ns[p] == x);
            }
        }
        if b.contains_key(k) {
            if k == x.0@ {
                assert(ns[p] == x);
            } else {
                let i = choose|i: int| 0 <= i < es.len() && (#[trigger] es[i]).0@ == k;
                if i < p {
                    assert(ns[i] == es[i]);
                } else {
                    assert(ns[i + 1] == es[i]);
                }
            }
        }
    }
    assert(a =~= b);
}

/// Putting a value in the place of the entry with the same key replaces it in
/// the map.
proof fn lemma_update<T>(es: Seq<(String, T)>, p: int, x: (String, T))
    requires
        keys_ascend(es),
        0 <= p < es.len(),
        es[p].0@ == x.0@,
    ensures
        keys_ascend(es.update(p, x)),
        to_map(es.update(p, x)) == to_map(es).insert(x.0@, x.1),
{
    let ns = es.update(p, x);
    assert forall|i: int, j: int| 0 <= i < j < ns.len() implies lex_lt(
        (#[trigger] ns[i]).0@,
        (#[trigger] ns[j]).0@,
    ) by {
        assert(ns[i].0@ == es[i].0@);
        assert(ns[j].0@ == es[j].0@);
    }
    lemma_to_map(es);
    lemma_to_map(ns);
    let a = to_map(ns);
    let b = to_map(es).insert(x.0@, x.1);
    assert forall|k: Seq<char>|
        #![trigger a.dom().contains(k)]
        #![trigger b.dom().contains(k)]
        a.dom().contains(k) == b.dom().contains(k) && (a.dom().contains(k) ==> a[k] == b[k]) by {
        if a.contains_key(k) {
            let i = choose|i: int| 0 <= i < ns.len() && (#[trigger] ns[i]).0@ == k;
            if i != p {
                assert(ns[i] == es[i]);
                lemma_lex_irreflexive(x.0@);
                assert(i < p ==> lex_lt(es[i].0@, es[p].0@));
                assert(i > p ==> lex_lt(es[p].0@, es[i].0@));
            }
        }
        if b.contains_key(k) {
            if k == x.0@ {
                assert(ns[p] == x);
            } else {
                let i = choose|i: int| 0 <= i < es.len() && (#[trigger] es[i]).0@ == k;
                assert(ns[i] == es[i]);
            }
        }
    }
    assert(a =~= b);
}

impl<T: Clone> Clone for StrMap<T> {
    /// A map with the same keys, each value cloned.
    fn clone(&self) -> (m: Self)
        ensures
            m.entries().len() == self.entries().len(),
            forall|i: int|
                0 <= i < m.entries().len() ==> (#[trigger] m.entries()[i]).0 == self.entries()[i].0,
    {
        proof {
            use_type_invariant(&*self);
        }
        let mut es: Vec<(String, T)> = Vec::new();
        let mut i: usize = 0;
        while i < self.entries.len()
            invariant
                i <= self.entries.len(),
                es.len() == i,
                forall|j: int| 0 <= j < i ==> (#[trigger] es@[j]).0 == self.entries@[j].0,
            decreases self.entries.len() - i,
        {
            es.push((self.entries[i].0.clone(), self.entries[i].1.clone()));
            i += 1;
        }
        assert forall|a: int, b: int| 0 <= a < b < es@.len() implies lex_lt(
            (#[trigger] es@[a]).0@,
            (#[trigger] es@[b]).0@,
        ) by {
            assert(lex_lt(self.entries@[a].0@, self.entries@[b].0@));
        }
        StrMap { entries: es }
    }
}

impl<T> View for StrMap<T> {
    type V = Map<Seq<char>, T>;

    /// The map that the entries stand for.
    open spec fn view(&self) -> Map<Seq<char>, T> {
        to_map(self.entries())
    }
}

impl<T> StrMap<T> {
    /// The entries, in the order in which they are held.
    pub closed spec fn entries(&self) -> Seq<(String, T)> {
        self.entries@
    }

    /// The entries are in strict dictionary order of their keys.
    #[verifier::type_invariant]
    spec fn ordered(&self) -> bool {
        keys_ascend(self.entries@)
    }

    /// A map without entries.
    pub fn new() -> (m: Self)
        ensures
            m.entries() == Seq::<(String, T)>::empty(),
            m@ == Map::<Seq<char>, T>::empty(),
    {
        StrMap { entries: Vec::new() }
    }

    /// The number of entries.
    pub fn len(&self) -> (n: usize)
        ensures
            n == self.entries().len(),
            n == self@.len(),
    {
        proof {
            use_type_invariant(&*self);
            lemma_to_map_len(self.entries());
        }
        self.entries.len()
    }

    /// Whether the map holds no entry.
    pub fn is_empty(&self) -> (r: bool)
        ensures
            r == (self.entries().len() == 0),
            r == (self@.len() == 0),
    {
        proof {
            use_type_invariant(&*self);
            lemma_to_map_len(self.entries());
        }
        self.entries.len() == 0
    }

    /// The key of the entry at place `i`.
    pub fn key(&self, i: usize) -> (k: &String)
        requires
            i < self.entries().len(),
        ensures
            *k == self.entries()[i as int].0,
            self@.contains_key(k@),
    {
        proof {
            use_type_invariant(&*self);
            lemma_to_map(self.entries());
        }
        &self.entries[i].0
    }

    /// The value of the entry at place `i`.
    pub fn value(&self, i: usize) -> (v: &T)
        requires
            i < self.entries().len(),
        ensures
            *v == self.entries()[i as int].1,
            *v == self@[self.entries()[i as int].0@],
    {
        proof {
            use_type_invariant(&*self);
            lemma_to_map(self.entries());
        }
        &self.entries[i].1
    }

    /// The place where `key` is, or where it would have to be put.
    fn locate(&self, key: &Vec<char>) -> (r: (usize, bool))
        ensures
            r.0 <= self.entries().len(),
            forall|i: int| 0 <= i < r.0 ==> lex_lt((#[trigger] self.entries()[i]).0@, key@),
            r.1 ==> r.0 < self.entries().len() && self.entries()[r.0 as int].0@ == key@,
            !r.1 ==> forall|i: int|
                r.0 <= i < self.entries().len() ==> lex_lt(key@, (#[trigger] self.entries()[i]).0@),
    {
        let mut i: usize = 0;
        proof {
            use_type_invariant(&*self);
        }
        while i < self.entries.len()
            invariant
                keys_ascend(self.entries()),
                i <= self.entries().len(),
                forall|j: int| 0 <= j < i ==> lex_lt((#[trigger] self.entries()[j]).0@, key@),
            decreases self.entries.len() - i,
        {
            let here = chars_of(self.entries[i].0.as_str());
            match compare_chars(&here, key) {
                Rank::Before => {},
                Rank::Same => {
                    return (i, true);
                },
                Rank::After => {
                    proof {
                        lemma_lex_total(here@, key@);
                        assert forall|j: int| i <= j < self.entries().len() implies lex_lt(
                            key@,
                            (#[trigger] self.entries()[j]).0@,
                        ) by {
                            if j > i {
                                assert(lex_lt(self.entries()[i as int].0@, self.entries()[j].0@));
                                lemma_lex_transitive(key@, here@, self.entries()[j].0@);
                            }
                        }
                    }
                    return (i, false);
                },
            }
            i += 1;
        }
        (i, false)
    }

    /// Whether the map holds `key`.
    pub fn contains_key(&self, key: &str) -> (r: bool)
        ensures
            r == self@.contains_key(key@),
    {
        let k = chars_of(key);
        let (p, found) = self.locate(&k);
        proof {
            use_type_invariant(&*self);
            lemma_to_map(self.entries());
            if !found && self@.contains_key(key@) {
                let i = choose|i: int|
                    0 <= i < self.entries().len() && (#[trigger] self.entries()[i]).0@ == key@;
                lemma_lex_irreflexive(key@);
            }
        }
        found
    }

    /// The value under `key`, if the map holds it.
    pub fn get(&self, key: &str) -> (r: Option<&T>)
        ensures
            match r {
                Some(v) => self@.contains_key(key@) && *v == self@[key@],
                None => !self@.contains_key(key@),
            },
    {
        let k = chars_of(key);
        let (p, found) = self.locate(&k);
        proof {
            use_type_invariant(&*self);
            lemma_to_map(self.entries());
            if !found && self@.contains_key(key@) {
                let i = choose|i: int|
                    0 <= i < self.entries().len() && (#[trigger] self.entries()[i]).0@ == key@;
                lemma_lex_irreflexive(key@);
            }
        }
        if found {
            Some(&self.entries[p].1)
        } else {
            None
        }
    }

    /// Puts `value` under `key`, in the place of what was there.
    pub fn insert(&mut self, key: String, value: T)
        ensures
            final(self)@ == old(self)@.insert(key@, value),
    {
        let k = chars_of(key.as_str());
        let (p, found) = self.locate(&k);
        proof {
            use_type_invariant(&*self);
        }
        let mut es: Vec<(String, T)> = Vec::new();
        std::mem::swap(&mut es, &mut self.entries);
        if found {
            proof {
                lemma_update(es@, p as int, (key, value));
            }
            es.set(p, (key, value));
        } else {
            proof {
                lemma_insert_new(es@, p as int, (key, value));
            }
            es.insert(p, (key, value));
        }
        self.entries = es;
    }

    /// Puts `value` under `key` unless the map holds `key` already.
    pub fn insert_if_absent(&mut self, key: String, value: T)
        ensures
            final(self)@ == (if old(self)@.contains_key(key@) {
                old(self)@
            } else {
                old(self)@.insert(key@, value)
            }),
    {
        let k = chars_of(key.as_str());
        let (p, found) = self.locate(&k);
        proof {
            use_type_invariant(&*self);
            lemma_to_map(self.entries());
            if !found && self@.contains_key(key@) {
                let i = choose|i: int|
                    0 <= i < self.entries().len() && (#[trigger] self.entries()[i]).0@ == key@;
                lemma_lex_irreflexive(key@);
            }
        }
        if !found {
            let mut es: Vec<(String, T)> = Vec::new();
            std::mem::swap(&mut es, &mut self.entries);
            proof {
                lemma_insert_new(es@, p as int, (key, value));
            }
            es.insert(p, (key, value));
            self.entries = es;
        }
    }

    /// Puts every entry of `other` into the map, in the place of what was
    /// there under the same key.
    pub fn extend(&mut self, other: StrMap<T>)
        ensures
            final(self)@ == old(self)@.union_prefer_right(other@),
    {
        let ghost es = other.entries();
        assert(es.take(0) =~= Seq::<(String, T)>::empty());
        assert(self@ =~= old(self)@.union_prefer_right(to_map(es.take(0))));
        for e in it: other.entries
            invariant
                it.seq() == es,
                self@ == old(self)@.union_prefer_right(to_map(es.take(it.index() as int))),
        {
            let ghost i = it.index() as int;
            assert(es.take(i + 1).drop_last() =~= es.take(i));
            assert(es.take(i + 1).last() == e);
            let (k, v) = e;
            self.insert(k, v);
            assert(self@ =~= old(self)@.union_prefer_right(to_map(es.take(i + 1))));
        }
        assert(es.take(es.len() as int) =~= es);
    }

    /// The entries, in dictionary order of their keys.
    pub fn into_entries(self) -> (es: Vec<(String, T)>)
        ensures
            es@ == self.entries(),
            keys_ascend(es@),
    {
        proof {
            use_type_invariant(&self);
        }
        self.entries
    }
}

impl StrMap<String> {
    /// Puts every entry of `other` whose key the map does not hold into it.
    pub fn fill_from(&mut self, other: &StrMap<String>)
        ensures
            final(self)@ == other@.union_prefer_right(old(self)@),
    {
        let ghost es = other.entries();
        proof {
            use_type_invariant(other);
        }
        assert(es.take(0) =~= Seq::<(String, String)>::empty());
        assert(self@ =~= to_map(es.take(0)).union_prefer_right(old(self)@));
        let mut i: usize = 0;
        while i < other.len()
            invariant
                es == other.entries(),
                keys_ascend(es),
                i <= es.len(),
                self@ == to_map(es.take(i as int)).union_prefer_right(old(self)@),
            decreases es.len() - i,
        {
            let k = other.key(i).clone();
            let v = other.value(i).clone();
            proof {
                let front = es.take(i as int);
                let next = es.take(i + 1);
                assert(next.drop_last() =~= front);
                assert(next.last() == es[i as int]);
                assert forall|a: int, b: int| 0 <= a < b < front.len() implies lex_lt(
                    (#[trigger] front[a]).0@,
                    (#[trigger] front[b]).0@,
                ) by {
                    assert(front[a] == es[a] && front[b] == es[b]);
                }
                lemma_to_map(front);
                if to_map(front).contains_key(k@) {
                    let j = choose|j: int| 0 <= j < front.len() && (#[trigger] front[j]).0@ == k@;
                    assert(front[j] == es[j]);
                    assert(lex_lt(es[j].0@, es[i as int].0@));
                    lemma_lex_irreflexive(k@);
                }
            }
            self.insert_if_absent(k, v);
            assert(self@ =~= to_map(es.take(i + 1)).union_prefer_right(old(self)@));
            i += 1;
        }
        assert(es.take(es.len() as int) =~= es);
    }
}

} // verus!
