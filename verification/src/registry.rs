//! A name-keyed collection kept sorted by name: the shape shared by the
//! theme and language registries. Inserting a value replaces any value of
//! the same name; names come out in sorted order.

use vstd::prelude::*;

use crate::text::{chars_eq, chars_lt, lemma_lex_irreflexive, lemma_lex_total, lemma_lex_transitive, lex_lt, to_chars};

verus! {

/// A value with a name.
pub trait Named {
    spec fn key(&self) -> Seq<char>;

    fn name_chars(&self) -> (r: Vec<char>)
        ensures
            r@ == self.key(),
    ;
}

/// Names strictly increasing: sorted, no name twice.
pub open spec fn sorted_by_key<T: Named>(s: Seq<T>) -> bool {
    forall|i: int, j: int| 0 <= i < j < s.len() ==> lex_lt(#[trigger] s[i].key(), #[trigger] s[j].key())
}

/// Some element of `s` has name `k`.
pub open spec fn has_key<T: Named>(s: Seq<T>, k: Seq<char>) -> bool {
    exists|i: int| 0 <= i < s.len() && (#[trigger] s[i]).key() == k
}

/// An index of an element named `k`.
pub open spec fn key_index<T: Named>(s: Seq<T>, k: Seq<char>) -> int {
    choose|i: int| 0 <= i < s.len() && (#[trigger] s[i]).key() == k
}

/// The element named `k`.
pub open spec fn at_key<T: Named>(s: Seq<T>, k: Seq<char>) -> T {
    s[key_index(s, k)]
}

/// The elements as a map from name to value.
pub open spec fn key_map<T: Named>(s: Seq<T>) -> Map<Seq<char>, T> {
    Map::new(|k: Seq<char>| has_key(s, k), |k: Seq<char>| at_key(s, k))
}

/// The names in order.
pub open spec fn keys_of<T: Named>(s: Seq<T>) -> Seq<Seq<char>> {
    s.map_values(|x: T| x.key())
}

pub proof fn lemma_unique_index<T: Named>(s: Seq<T>, i: int, j: int)
    requires
        sorted_by_key(s),
        0 <= i < s.len(),
        0 <= j < s.len(),
        s[i].key() == s[j].key(),
    ensures
        i == j,
{
    if i < j {
        assert(lex_lt(s[i].key(), s[j].key()));
        lemma_lex_irreflexive(s[i].key());
    } else if j < i {
        assert(lex_lt(s[j].key(), s[i].key()));
        lemma_lex_irreflexive(s[i].key());
    }
}

pub proof fn lemma_at_key_index<T: Named>(s: Seq<T>, i: int)
    requires
        sorted_by_key(s),
        0 <= i < s.len(),
    ensures
        has_key(s, s[i].key()),
        at_key(s, s[i].key()) == s[i],
{
    let k = s[i].key();
    assert(has_key(s, k));
    let c = key_index(s, k);
    lemma_unique_index(s, c, i);
}

/// Values kept in a vector sorted by name, with no name twice.
///
/// A `BTreeMap<String, T>` would say nothing provable here: vstd's
/// specification of `BTreeMap` holds only for key types known to obey its
/// model of `Ord`, and `String` is not among them, so no lookup or insert
/// on such a map could be tied to the names. The sorted vector is ordered
/// by `lex_lt` over the names' characters, which the proofs below rest on.
#[derive(Debug)]
pub struct Catalog<T: Named> {
    items: Vec<T>,
}

impl<T: Named> Catalog<T> {
    pub closed spec fn items(&self) -> Seq<T> {
        self.items@
    }

    /// The catalog's invariant: sorted by name, each name once.
    pub open spec fn wf(&self) -> bool {
        sorted_by_key(self.items())
    }

    pub open spec fn view(&self) -> Map<Seq<char>, T> {
        key_map(self.items())
    }

    pub fn new() -> (c: Self)
        ensures
            c.wf(),
            c.view() == Map::<Seq<char>, T>::empty(),
    {
        let c = Catalog { items: Vec::new() };
        assert(c.view() =~= Map::<Seq<char>, T>::empty());
        c
    }

    /// Position of the first item whose name is not before `key`.
    fn position(&self, key: &Vec<char>) -> (p: usize)
        requires
            self.wf(),
        ensures
            p <= self.items().len(),
            forall|i: int| 0 <= i < p ==> lex_lt(#[trigger] self.items()[i].key(), key@),
            p < self.items().len() ==> !lex_lt(self.items()[p as int].key(), key@),
    {
        let mut p: usize = 0;
        while p < self.items.len()
            invariant
                p <= self.items@.len(),
                forall|i: int| 0 <= i < p ==> lex_lt(#[trigger] self.items@[i].key(), key@),
            decreases self.items@.len() - p,
        {
            let k = self.items[p].name_chars();
            if !chars_lt(&k, key) {
                return p;
            }
            p = p + 1;
        }
        p
    }

    /// Adds `value`, replacing any value with the same name.
    pub fn insert(&mut self, value: T)
        requires
            old(self).wf(),
        ensures
            final(self).wf(),
            final(self).view() == old(self).view().insert(value.key(), value),
            final(self).view().dom().finite(),
            final(self).view().dom().len() == old(self).view().dom().len() + if old(
                self,
            ).view().contains_key(value.key()) {
                0int
            } else {
                1int
            },
    {
        proof {
            lemma_dom_len(self.items@);
        }
        let key = value.name_chars();
        let p = self.position(&key);
        let ghost s = self.items@;
        let same = if p < self.items.len() {
            let k = self.items[p].name_chars();
            chars_eq(&k, &key)
        } else {
            false
        };
        if same {
            self.items.set(p, value);
            proof {
                let t = self.items@;
                assert(t == s.update(p as int, value));
                assert forall|i: int, j: int| 0 <= i < j < t.len() implies lex_lt(
                    #[trigger] t[i].key(),
                    #[trigger] t[j].key(),
                ) by {
                    if i != p && j != p {
                        assert(lex_lt(s[i].key(), s[j].key()));
                    } else if i == p {
                        assert(lex_lt(s[i].key(), s[j].key()));
                    } else {
                        assert(lex_lt(s[i].key(), s[j].key()));
                    }
                }
                lemma_replace_map(s, p as int, value);
            }
        } else {
            proof {
                if has_key(s, key@) {
                    let i = choose|i: int| 0 <= i < s.len() && (#[trigger] s[i]).key() == key@;
                    if i < p {
                        assert(lex_lt(s[i].key(), key@));
                        lemma_lex_irreflexive(key@);
                    } else if i > p {
                        assert(lex_lt(s[p as int].key(), s[i].key()));
                    }
                }
            }
            self.items.insert(p, value);
            proof {
                let t = self.items@;
                assert(t == s.insert(p as int, value));
                assert forall|i: int, j: int| 0 <= i < j < t.len() implies lex_lt(
                    #[trigger] t[i].key(),
                    #[trigger] t[j].key(),
                ) by {
                    if j < p {
                        assert(lex_lt(s[i].key(), s[j].key()));
                    } else if j == p {
                        assert(t[i] == s[i]);
                    } else if i == p {
                        assert(t[j] == s[j - 1]);
                        // s[p] is not before key, and differs from it
                        if p < s.len() {
                            lemma_lex_total(s[p as int].key(), key@);
                            if j - 1 > p {
                                assert(lex_lt(s[p as int].key(), s[j - 1].key()));
                                lemma_lex_transitive(key@, s[p as int].key(), s[j - 1].key());
                            }
                        }
                    } else if i < p {
                        assert(t[j] == s[j - 1]);
                        if p < s.len() {
                            lemma_lex_total(s[p as int].key(), key@);
                            lemma_lex_transitive(s[i].key(), key@, s[p as int].key());
                            if j - 1 > p {
                                assert(lex_lt(s[p as int].key(), s[j - 1].key()));
                                lemma_lex_transitive(s[i].key(), s[p as int].key(), s[j - 1].key());
                            }
                        }
                    } else {
                        assert(t[i] == s[i - 1]);
                        assert(t[j] == s[j - 1]);
                        assert(lex_lt(s[i - 1].key(), s[j - 1].key()));
                    }
                }
                lemma_insert_map(s, p as int, value);
            }
        }
    }

    /// Index of the item named `name`.
    fn find(&self, name: &Vec<char>) -> (r: Option<usize>)
        requires
            self.wf(),
        ensures
            r is Some <==> self.view().contains_key(name@),
            r matches Some(i) ==> i < self.items().len() && self.items()[i as int] == self.view()[name@],
    {
        let p = self.position(name);
        if p < self.items.len() {
            let k = self.items[p].name_chars();
            if chars_eq(&k, name) {
                proof {
                    lemma_at_key_index(self.items@, p as int);
                }
                return Some(p);
            }
        }
        proof {
            if has_key(self.items@, name@) {
                let i = choose|i: int| 0 <= i < self.items@.len() && (#[trigger] self.items@[i]).key()
                    == name@;
                if i < p {
                    lemma_lex_irreflexive(name@);
                } else if i > p {
                    assert(lex_lt(self.items@[p as int].key(), name@));
                    lemma_lex_total(self.items@[p as int].key(), name@);
                }
            }
        }
        None
    }

    pub fn get(&self, name: &str) -> (r: Option<&T>)
        requires
            self.wf(),
        ensures
            r is Some <==> self.view().contains_key(name@),
            r matches Some(v) ==> *v == self.view()[name@],
    {
        let n = to_chars(name);
        match self.find(&n) {
            Some(i) => Some(&self.items[i]),
            None => None,
        }
    }

    pub fn len(&self) -> (n: usize)
        requires
            self.wf(),
        ensures
            n == self.view().dom().len(),
            n == self.items().len(),
    {
        proof {
            lemma_dom_len(self.items@);
        }
        self.items.len()
    }

    /// The names, in sorted order.
    pub fn keys(&self) -> (r: Vec<Vec<char>>)
        requires
            self.wf(),
        ensures
            r@.len() == self.items().len(),
            forall|i: int| 0 <= i < r@.len() ==> (#[trigger] r@[i])@ == self.items()[i].key(),
    {
        let mut r: Vec<Vec<char>> = Vec::new();
        let mut i: usize = 0;
        while i < self.items.len()
            invariant
                i <= self.items@.len(),
                r@.len() == i,
                forall|j: int| 0 <= j < i ==> (#[trigger] r@[j])@ == self.items@[j].key(),
            decreases self.items@.len() - i,
        {
            r.push(self.items[i].name_chars());
            i = i + 1;
        }
        r
    }
}

proof fn lemma_replace_map<T: Named>(s: Seq<T>, p: int, v: T)
    requires
        sorted_by_key(s),
        0 <= p < s.len(),
        s[p].key() == v.key(),
        sorted_by_key(s.update(p, v)),
    ensures
        key_map(s.update(p, v)) == key_map(s).insert(v.key(), v),
{
    let t = s.update(p, v);
    assert forall|k: Seq<char>| has_key(t, k) <==> (has_key(s, k) || k == v.key()) by {
        if has_key(t, k) {
            let i = choose|i: int| 0 <= i < t.len() && (#[trigger] t[i]).key() == k;
            if i != p {
                assert(s[i] == t[i]);
            }
        }
        if has_key(s, k) {
            let i = choose|i: int| 0 <= i < s.len() && (#[trigger] s[i]).key() == k;
            assert(t[i].key() == k);
        }
        if k == v.key() {
            assert(t[p].key() == k);
        }
    }
    assert forall|k: Seq<char>| has_key(t, k) implies at_key(t, k) == key_map(s).insert(
        v.key(),
        v,
    )[k] by {
        let i = choose|i: int| 0 <= i < t.len() && (#[trigger] t[i]).key() == k;
        lemma_at_key_index(t, i);
        if i == p {
        } else {
            assert(s[i] == t[i]);
            lemma_at_key_index(s, i);
            if k == v.key() {
                lemma_unique_index(s, i, p);
            }
            assert(key_map(s)[k] == at_key(s, k));
        }
    }
    assert(key_map(t) =~= key_map(s).insert(v.key(), v));
}

proof fn lemma_insert_map<T: Named>(s: Seq<T>, p: int, v: T)
    requires
        sorted_by_key(s),
        0 <= p <= s.len(),
        !has_key(s, v.key()),
        sorted_by_key(s.insert(p, v)),
    ensures
        key_map(s.insert(p, v)) == key_map(s).insert(v.key(), v),
{
    let t = s.insert(p, v);
    assert forall|k: Seq<char>| has_key(t, k) <==> (has_key(s, k) || k == v.key()) by {
        if has_key(t, k) {
            let i = choose|i: int| 0 <= i < t.len() && (#[trigger] t[i]).key() == k;
            if i < p {
                assert(s[i] == t[i]);
            } else if i > p {
                assert(s[i - 1] == t[i]);
            }
        }
        if has_key(s, k) {
            let i = choose|i: int| 0 <= i < s.len() && (#[trigger] s[i]).key() == k;
            if i < p {
                assert(t[i].key() == k);
            } else {
                assert(t[i + 1].key() == k);
            }
        }
        if k == v.key() {
            assert(t[p].key() == k);
        }
    }
    assert forall|k: Seq<char>| has_key(t, k) implies at_key(t, k) == key_map(s).insert(
        v.key(),
        v,
    )[k] by {
        let i = choose|i: int| 0 <= i < t.len() && (#[trigger] t[i]).key() == k;
        lemma_at_key_index(t, i);
        if i < p {
            assert(s[i] == t[i]);
            lemma_at_key_index(s, i);
            assert(k != v.key());
            assert(key_map(s)[k] == at_key(s, k));
        } else if i > p {
            assert(s[i - 1] == t[i]);
            lemma_at_key_index(s, i - 1);
            assert(k != v.key());
            assert(key_map(s)[k] == at_key(s, k));
        }
    }
    assert(key_map(t) =~= key_map(s).insert(v.key(), v));
}

proof fn lemma_dom_len<T: Named>(s: Seq<T>)
    requires
        sorted_by_key(s),
    ensures
        key_map(s).dom().finite(),
        key_map(s).dom().len() == s.len(),
    decreases s.len(),
{
    if s.len() == 0 {
        assert(key_map(s).dom() =~= Set::<Seq<char>>::empty());
    } else {
        let r = s.drop_last();
        assert(sorted_by_key(r)) by {
            assert forall|i: int, j: int| 0 <= i < j < r.len() implies lex_lt(
                #[trigger] r[i].key(),
                #[trigger] r[j].key(),
            ) by {
                assert(r[i] == s[i] && r[j] == s[j]);
            }
        }
        lemma_dom_len(r);
        assert(!has_key(r, s.last().key())) by {
            if has_key(r, s.last().key()) {
                let i = choose|i: int| 0 <= i < r.len() && (#[trigger] r[i]).key() == s.last().key();
                assert(s[i] == r[i]);
                lemma_unique_index(s, i, s.len() - 1);
            }
        }
        assert(key_map(s).dom() =~= key_map(r).dom().insert(s.last().key())) by {
            assert forall|k: Seq<char>| has_key(s, k) <==> (has_key(r, k) || k == s.last().key()) by {
                if has_key(s, k) {
                    let i = choose|i: int| 0 <= i < s.len() && (#[trigger] s[i]).key() == k;
                    if i < s.len() - 1 {
                        assert(r[i] == s[i]);
                    }
                }
                if has_key(r, k) {
                    let i = choose|i: int| 0 <= i < r.len() && (#[trigger] r[i]).key() == k;
                    assert(s[i] == r[i]);
                }
                if k == s.last().key() {
                    assert(s[s.len() - 1].key() == k);
                }
            }
        }
    }
}

} // verus!
