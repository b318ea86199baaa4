//! Ordered maps with unique keys: text to text (ciphering tables) and
//! character to glyph metrics (font tables). Entries keep the order in
//! which their keys were first inserted.
use vstd::prelude::*;
use crate::text::{str_chars, copy_chars, chars_eq};
use crate::outside::string_from_chars;

verus! {

/// No key occurs twice.
pub open spec fn keys_unique<K, V>(es: Seq<(K, V)>) -> bool {
    forall|i: int, j: int| 0 <= i < j < es.len() ==> es[i].0 != es[j].0
}

/// Whether some entry has key `k`.
pub open spec fn has_key<K, V>(es: Seq<(K, V)>, k: K) -> bool {
    exists|i: int| 0 <= i < es.len() && es[i].0 == k
}

/// The position of the entry with key `k`.
pub open spec fn key_index<K, V>(es: Seq<(K, V)>, k: K) -> int {
    choose|i: int| 0 <= i < es.len() && es[i].0 == k
}

/// The value under `k`, if any.
pub open spec fn lookup<K, V>(es: Seq<(K, V)>, k: K) -> Option<V> {
    if has_key(es, k) {
        Some(es[key_index(es, k)].1)
    } else {
        None
    }
}

/// `k` set to `v`: the entry keeps its place when the key is present,
/// else a new entry comes last.
pub open spec fn insert_entry<K, V>(es: Seq<(K, V)>, k: K, v: V) -> Seq<(K, V)> {
    if has_key(es, k) {
        es.update(key_index(es, k), (k, v))
    } else {
        es.push((k, v))
    }
}

/// The entry with key `k` taken out, if present.
pub open spec fn remove_entry<K, V>(es: Seq<(K, V)>, k: K) -> Seq<(K, V)> {
    if has_key(es, k) {
        es.remove(key_index(es, k))
    } else {
        es
    }
}

/// The entries as a map.
pub open spec fn as_map<K, V>(es: Seq<(K, V)>) -> Map<K, V> {
    Map::new(|k: K| has_key(es, k), |k: K| lookup(es, k).unwrap())
}

/// In a map with unique keys, the entry found for a key is the one at its position.
pub proof fn lemma_key_index<K, V>(es: Seq<(K, V)>, i: int)
    requires
        keys_unique(es),
        0 <= i < es.len(),
    ensures
        has_key(es, es[i].0),
        key_index(es, es[i].0) == i,
        lookup(es, es[i].0) == Some(es[i].1),
{
    assert(has_key(es, es[i].0));
    let j = key_index(es, es[i].0);
    if j != i {
        if j < i {
            assert(es[j].0 != es[i].0);
        } else {
            assert(es[i].0 != es[j].0);
        }
    }
}

/// Inserting keeps keys unique.
pub proof fn lemma_insert_entry<K, V>(es: Seq<(K, V)>, k: K, v: V)
    requires
        keys_unique(es),
    ensures
        keys_unique(insert_entry(es, k, v)),
        has_key(insert_entry(es, k, v), k),
        lookup(insert_entry(es, k, v), k) == Some(v),
        forall|k2: K| k2 != k ==> lookup(insert_entry(es, k, v), k2) == lookup(es, k2),
        forall|k2: K| has_key(insert_entry(es, k, v), k2) <==> (k2 == k || has_key(es, k2)),
{
    let r = insert_entry(es, k, v);
    if has_key(es, k) {
        let i = key_index(es, k);
        assert(r[i].0 == k);
        lemma_key_index(r, i);
        assert forall|k2: K| k2 != k implies lookup(r, k2) == lookup(es, k2) by {
            if has_key(es, k2) {
                let j = key_index(es, k2);
                lemma_key_index(es, j);
                lemma_key_index(r, j);
            } else {
                if has_key(r, k2) {
                    let j = key_index(r, k2);
                    assert(es[j].0 == k2);
                }
            }
        }
        assert forall|k2: K| has_key(r, k2) <==> (k2 == k || has_key(es, k2)) by {
            if has_key(es, k2) {
                let j = key_index(es, k2);
                if j == i {
                    assert(r[i].0 == k);
                } else {
                    assert(r[j].0 == k2);
                }
            }
            if has_key(r, k2) {
                let j = choose|j: int| 0 <= j < r.len() && r[j].0 == k2;
                if j != i {
                    assert(es[j].0 == k2);
                }
            }
        }
    } else {
        assert(r.last().0 == k);
        lemma_key_index(r, r.len() - 1);
        assert forall|k2: K| k2 != k implies lookup(r, k2) == lookup(es, k2) by {
            if has_key(es, k2) {
                let j = key_index(es, k2);
                lemma_key_index(es, j);
                lemma_key_index(r, j);
            } else {
                if has_key(r, k2) {
                    let j = key_index(r, k2);
                    assert(es[j].0 == k2);
                }
            }
        }
        assert forall|k2: K| has_key(r, k2) <==> (k2 == k || has_key(es, k2)) by {
            if has_key(es, k2) {
                let j = key_index(es, k2);
                assert(r[j].0 == k2);
            }
            if has_key(r, k2) {
                let j = choose|j: int| 0 <= j < r.len() && r[j].0 == k2;
                if j < es.len() {
                    assert(es[j].0 == k2);
                }
            }
        }
    }
}

/// Removing keeps keys unique and drops exactly the key.
pub proof fn lemma_remove_entry<K, V>(es: Seq<(K, V)>, k: K)
    requires
        keys_unique(es),
    ensures
        keys_unique(remove_entry(es, k)),
        !has_key(remove_entry(es, k), k),
        forall|k2: K| k2 != k ==> lookup(remove_entry(es, k), k2) == lookup(es, k2),
{
    let r = remove_entry(es, k);
    if has_key(es, k) {
        let i = key_index(es, k);
        assert forall|a: int, b: int| 0 <= a < b < r.len() implies r[a].0 != r[b].0 by {
            let a2 = if a < i { a } else { a + 1 };
            let b2 = if b < i { b } else { b + 1 };
            assert(r[a] == es[a2]);
            assert(r[b] == es[b2]);
        }
        if has_key(r, k) {
            let j = choose|j: int| 0 <= j < r.len() && r[j].0 == k;
            let j2 = if j < i { j } else { j + 1 };
            assert(es[j2].0 == k);
            assert(j2 != i);
        }
        assert forall|k2: K| k2 != k implies lookup(r, k2) == lookup(es, k2) by {
            if has_key(es, k2) {
                let j = key_index(es, k2);
                assert(j != i);
                let j2 = if j < i { j } else { j - 1 };
                assert(r[j2] == es[j]);
                lemma_key_index(es, j);
                lemma_key_index(r, j2);
            } else {
                if has_key(r, k2) {
                    let j = key_index(r, k2);
                    let j2 = if j < i { j } else { j + 1 };
                    assert(es[j2].0 == k2);
                }
            }
        }
    }
}

/// `to` given the value that `from` has.
pub open spec fn copy_key<K, V>(m: Seq<(K, V)>, to: K, from: K) -> Seq<(K, V)> {
    insert_entry(m, to, lookup(m, from).unwrap())
}

/// The four forms of a letter filled in from those present: when some but
/// not all are present, an absent isolated or initial-joining form is taken
/// from its partner (0 with 1, 2 with 3), then the pairs are bridged (1 with
/// 2, 0 with 3).
pub open spec fn complete_forms<K, V>(m: Seq<(K, V)>, k0: K, k1: K, k2: K, k3: K) -> Seq<(K, V)> {
    let v0 = has_key(m, k0);
    let v1 = has_key(m, k1);
    let v2 = has_key(m, k2);
    let v3 = has_key(m, k3);
    if (v0 && v1 && v2 && v3) || !(v0 || v1 || v2 || v3) {
        m
    } else {
        let m1 = if !v1 && v0 {
            copy_key(m, k1, k0)
        } else if !v0 && v1 {
            copy_key(m, k0, k1)
        } else {
            m
        };
        let v1a = v1 || v0;
        let v0a = v0 || v1;
        let m2 = if !v3 && v2 {
            copy_key(m1, k3, k2)
        } else if !v2 && v3 {
            copy_key(m1, k2, k3)
        } else {
            m1
        };
        let v3a = v3 || v2;
        let v2a = v2 || v3;
        let m3 = if !v1a && v2a {
            copy_key(m2, k1, k2)
        } else if !v2a && v1a {
            copy_key(m2, k2, k1)
        } else {
            m2
        };
        if !v0a && v3a {
            copy_key(m3, k0, k3)
        } else if !v3a && v0a {
            copy_key(m3, k3, k0)
        } else {
            m3
        }
    }
}

// ---------------------------------------------------------------- text keys

/// The text of a stored key or value.
pub open spec fn pair_views(es: Seq<(Vec<char>, Vec<char>)>) -> Seq<(Seq<char>, Seq<char>)> {
    es.map_values(|e: (Vec<char>, Vec<char>)| (e.0@, e.1@))
}

/// A table from text to text, such as a ciphering table. Its view is the
/// list of entries, in the order their keys were first inserted.
pub struct CharMap {
    entries: Vec<(Vec<char>, Vec<char>)>,
}

impl View for CharMap {
    type V = Seq<(Seq<char>, Seq<char>)>;

    closed spec fn view(&self) -> Seq<(Seq<char>, Seq<char>)> {
        pair_views(self.entries@)
    }
}

impl CharMap {
    /// Keys are unique.
    #[verifier::type_invariant]
    pub open spec fn inv(self) -> bool {
        keys_unique(self@)
    }

    /// An empty table.
    pub fn new() -> (m: CharMap)
        ensures
            m@ == Seq::<(Seq<char>, Seq<char>)>::empty(),
    {
        let m = CharMap { entries: Vec::new() };
        assert(m@ =~= Seq::<(Seq<char>, Seq<char>)>::empty());
        m
    }

    /// Number of entries.
    pub fn len(&self) -> (n: usize)
        ensures
            n == self@.len(),
    {
        self.entries.len()
    }

    /// Whether the table has no entry.
    pub fn is_empty(&self) -> (b: bool)
        ensures
            b == (self@.len() == 0),
    {
        self.entries.len() == 0
    }

    /// The position of the key, if present.
    pub fn find(&self, key: &Vec<char>) -> (r: Option<usize>)
        ensures
            r is Some <==> has_key(self@, key@),
            r matches Some(i) ==> i < self@.len() && self@[i as int].0 == key@ && key_index(
                self@,
                key@,
            ) == i,
    {
        proof {
            use_type_invariant(self);
        }
        let mut i: usize = 0;
        while i < self.entries.len()
            invariant
                i <= self.entries.len(),
                self@.len() == self.entries.len(),
                keys_unique(self@),
                forall|j: int| 0 <= j < i ==> self@[j].0 != key@,
            decreases self.entries.len() - i,
        {
            if chars_eq(&self.entries[i].0, key) {
                proof {
                    lemma_key_index(self@, i as int);
                }
                return Some(i);
            }
            i += 1;
        }
        None
    }

    /// The key and value at a position.
    pub fn entry_at(&self, i: usize) -> (r: (&Vec<char>, &Vec<char>))
        requires
            i < self@.len(),
        ensures
            r.0@ == self@[i as int].0,
            r.1@ == self@[i as int].1,
    {
        (&self.entries[i].0, &self.entries[i].1)
    }

    /// The value under a key, if present.
    pub fn get_chars(&self, key: &Vec<char>) -> (r: Option<&Vec<char>>)
        ensures
            r is Some <==> has_key(self@, key@),
            r matches Some(v) ==> lookup(self@, key@) == Some(v@),
    {
        match self.find(key) {
            Some(i) => Some(&self.entries[i].1),
            None => None,
        }
    }

    /// Sets `key` to `value`: in place when the key is present, else as a new
    /// last entry.
    pub fn insert_chars(&mut self, key: Vec<char>, value: Vec<char>)
        ensures
            final(self)@ == insert_entry(old(self)@, key@, value@),
    {
        proof {
            use_type_invariant(&*self);
            lemma_insert_entry(self@, key@, value@);
        }
        let found = self.find(&key);
        let ghost before = self.entries@;
        let ghost kview = key@;
        let mut es: Vec<(Vec<char>, Vec<char>)> = Vec::new();
        std::mem::swap(&mut es, &mut self.entries);
        match found {
            Some(i) => {
                es.set(i, (key, value));
                assert(pair_views(es@) =~= pair_views(before).update(i as int, (kview, value@)));
            },
            None => {
                es.push((key, value));
                assert(pair_views(es@) =~= pair_views(before).push((kview, value@)));
            },
        }
        self.entries = es;
    }

    /// Takes out the entry with `key`, if present.
    pub fn remove_chars(&mut self, key: &Vec<char>)
        ensures
            final(self)@ == remove_entry(old(self)@, key@),
    {
        proof {
            use_type_invariant(&*self);
            lemma_remove_entry(self@, key@);
        }
        match self.find(key) {
            Some(i) => {
                let ghost before = self.entries@;
                let mut es: Vec<(Vec<char>, Vec<char>)> = Vec::new();
                std::mem::swap(&mut es, &mut self.entries);
                es.remove(i);
                assert(pair_views(es@) =~= pair_views(before).remove(i as int));
                self.entries = es;
            },
            None => {},
        }
    }

    /// Sets `key` to `value`.
    pub fn insert(&mut self, key: &str, value: &str)
        ensures
            final(self)@ == insert_entry(old(self)@, key@, value@),
    {
        self.insert_chars(str_chars(key), str_chars(value));
    }

    /// The value under `key`, if present.
    pub fn get(&self, key: &str) -> (r: Option<String>)
        ensures
            r is Some <==> has_key(self@, key@),
            r matches Some(v) ==> lookup(self@, key@) == Some(v@),
    {
        match self.get_chars(&str_chars(key)) {
            Some(v) => Some(string_from_chars(v)),
            None => None,
        }
    }

    /// Whether `key` is present.
    pub fn contains_key(&self, key: &str) -> (b: bool)
        ensures
            b == has_key(self@, key@),
    {
        self.find(&str_chars(key)).is_some()
    }

    /// Takes out the entry with `key`, if present.
    pub fn remove(&mut self, key: &str)
        ensures
            final(self)@ == remove_entry(old(self)@, key@),
    {
        self.remove_chars(&str_chars(key));
    }

    /// The entries as text pairs, in order.
    pub fn entries(&self) -> (r: Vec<(String, String)>)
        ensures
            r@.len() == self@.len(),
            forall|i: int|
                0 <= i < r@.len() ==> (#[trigger] r@[i]).0@ == self@[i].0 && r@[i].1@
                    == self@[i].1,
    {
        let mut r: Vec<(String, String)> = Vec::new();
        let mut i: usize = 0;
        while i < self.entries.len()
            invariant
                i <= self.entries.len(),
                self@.len() == self.entries.len(),
                r@.len() == i,
                forall|j: int|
                    0 <= j < i ==> (#[trigger] r@[j]).0@ == self@[j].0 && r@[j].1@ == self@[j].1,
            decreases self.entries.len() - i,
        {
            r.push((string_from_chars(&self.entries[i].0), string_from_chars(&self.entries[i].1)));
            i += 1;
        }
        r
    }

    /// A copy of the table.
    pub fn copy(&self) -> (r: CharMap)
        ensures
            r@ == self@,
    {
        proof {
            use_type_invariant(self);
        }
        let mut es: Vec<(Vec<char>, Vec<char>)> = Vec::new();
        let mut i: usize = 0;
        while i < self.entries.len()
            invariant
                i <= self.entries.len(),
                pair_views(es@) == pair_views(self.entries@).take(i as int),
            decreases self.entries.len() - i,
        {
            let ghost before = es@;
            let k = copy_chars(&self.entries[i].0);
            let v = copy_chars(&self.entries[i].1);
            let ghost kv = (k@, v@);
            es.push((k, v));
            assert(pair_views(es@) =~= pair_views(before).push(kv));
            assert(pair_views(es@) =~= pair_views(self.entries@).take(i + 1));
            i += 1;
        }
        assert(pair_views(self.entries@).take(i as int) =~= pair_views(self.entries@));
        CharMap { entries: es }
    }
}

// ---------------------------------------------------------------- font tables

/// Horizontal room a glyph takes: its width plus its advance.
pub open spec fn glyph_room(m: Seq<isize>) -> int {
    m[2] + m[6]
}

/// The metrics of stored glyphs as sequences.
pub open spec fn metric_views(es: Seq<(char, [isize; 8])>) -> Seq<(char, Seq<isize>)> {
    es.map_values(|e: (char, [isize; 8])| (e.0, e.1@))
}

/// A font table: glyph metrics by character (x, y, width, height, x offset,
/// y offset, x advance, page); the entry under U+0000 holds the line height
/// in its first field. Its view is the list of entries, in the order their
/// keys were first inserted.
pub struct FontMap {
    entries: Vec<(char, [isize; 8])>,
}

impl View for FontMap {
    type V = Seq<(char, Seq<isize>)>;

    closed spec fn view(&self) -> Seq<(char, Seq<isize>)> {
        metric_views(self.entries@)
    }
}

impl FontMap {
    /// Keys are unique.
    #[verifier::type_invariant]
    pub open spec fn inv(self) -> bool {
        keys_unique(self@)
    }

    /// An empty table.
    pub fn new() -> (m: FontMap)
        ensures
            m@ == Seq::<(char, Seq<isize>)>::empty(),
    {
        let m = FontMap { entries: Vec::new() };
        assert(m@ =~= Seq::<(char, Seq<isize>)>::empty());
        m
    }

    /// Number of entries.
    pub fn len(&self) -> (n: usize)
        ensures
            n == self@.len(),
    {
        self.entries.len()
    }

    /// Whether the table has no entry.
    pub fn is_empty(&self) -> (b: bool)
        ensures
            b == (self@.len() == 0),
    {
        self.entries.len() == 0
    }

    /// The metrics of a character, if present.
    pub fn get(&self, c: char) -> (r: Option<[isize; 8]>)
        ensures
            r is Some <==> has_key(self@, c),
            r matches Some(v) ==> lookup(self@, c) == Some(v@),
    {
        proof {
            use_type_invariant(self);
        }
        let mut i: usize = 0;
        while i < self.entries.len()
            invariant
                i <= self.entries.len(),
                self@.len() == self.entries@.len(),
                keys_unique(self@),
                forall|j: int| 0 <= j < i ==> self@[j].0 != c,
            decreases self.entries.len() - i,
        {
            if self.entries[i].0 == c {
                proof {
                    lemma_key_index(self@, i as int);
                }
                return Some(self.entries[i].1);
            }
            i += 1;
        }
        None
    }

    /// Whether `c` is present.
    pub fn contains_key(&self, c: char) -> (b: bool)
        ensures
            b == has_key(self@, c),
    {
        self.get(c).is_some()
    }

    /// Sets the metrics of `c`: in place when present, else as a new last
    /// entry.
    pub fn insert(&mut self, c: char, metrics: [isize; 8])
        ensures
            final(self)@ == insert_entry(old(self)@, c, metrics@),
    {
        proof {
            use_type_invariant(&*self);
            lemma_insert_entry(self@, c, metrics@);
        }
        let ghost before = self@;
        let mut es: Vec<(char, [isize; 8])> = Vec::new();
        std::mem::swap(&mut es, &mut self.entries);
        assert(metric_views(es@) == before);
        let mut i: usize = 0;
        while i < es.len()
            invariant
                metric_views(es@) == before,
                before == old(self)@,
                keys_unique(before),
                i <= es.len(),
                forall|j: int| 0 <= j < i ==> before[j].0 != c,
            decreases es.len() - i,
        {
            if es[i].0 == c {
                proof {
                    lemma_key_index(before, i as int);
                }
                es.set(i, (c, metrics));
                assert(metric_views(es@) =~= insert_entry(before, c, metrics@));
                self.entries = es;
                return;
            }
            i += 1;
        }
        assert(!has_key(before, c));
        es.push((c, metrics));
        assert(metric_views(es@) =~= insert_entry(before, c, metrics@));
        self.entries = es;
    }

    /// The entries, in order.
    pub fn entries(&self) -> (r: Vec<(char, [isize; 8])>)
        ensures
            metric_views(r@) == self@,
    {
        let mut r: Vec<(char, [isize; 8])> = Vec::new();
        let mut i: usize = 0;
        while i < self.entries.len()
            invariant
                i <= self.entries.len(),
                r@ == self.entries@.take(i as int),
            decreases self.entries.len() - i,
        {
            r.push(self.entries[i]);
            i += 1;
            assert(r@ =~= self.entries@.take(i as int));
        }
        assert(self.entries@.take(i as int) =~= self.entries@);
        r
    }
}

} // verus!
