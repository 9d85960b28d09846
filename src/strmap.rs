//! A map from strings to strings that keeps its keys in insertion order.
use vstd::prelude::*;

verus! {

/// The map that a list of key/value pairs describes; a later pair for a key wins.
pub open spec fn pairs_to_map<K, V>(s: Seq<(K, V)>) -> Map<K, V>
    decreases s.len(),
{
    if s.len() == 0 {
        Map::empty()
    } else {
        pairs_to_map(s.drop_last()).insert(s.last().0, s.last().1)
    }
}

/// No key occurs twice.
pub open spec fn keys_unique<K, V>(s: Seq<(K, V)>) -> bool {
    forall|i: int, j: int| 0 <= i < j < s.len() ==> (#[trigger] s[i]).0 != (#[trigger] s[j]).0
}

pub proof fn lemma_absent<K, V>(s: Seq<(K, V)>, k: K)
    requires
        forall|i: int| 0 <= i < s.len() ==> (#[trigger] s[i]).0 != k,
    ensures
        !pairs_to_map(s).contains_key(k),
    decreases s.len(),
{
    if s.len() > 0 {
        assert forall|i: int| 0 <= i < s.drop_last().len() implies (#[trigger] s.drop_last()[i]).0
            != k by {
            assert(s.drop_last()[i] == s[i]);
        }
        lemma_absent(s.drop_last(), k);
    }
}

pub proof fn lemma_lookup<K, V>(s: Seq<(K, V)>, i: int)
    requires
        keys_unique(s),
        0 <= i < s.len(),
    ensures
        pairs_to_map(s).contains_key(s[i].0),
        pairs_to_map(s)[s[i].0] == s[i].1,
    decreases s.len(),
{
    if i < s.len() - 1 {
        let t = s.drop_last();
        assert(t[i] == s[i]);
        assert(s[i].0 != s[s.len() - 1].0);
        lemma_lookup(t, i);
    }
}

pub proof fn lemma_map_len<K, V>(s: Seq<(K, V)>)
    requires
        keys_unique(s),
    ensures
        pairs_to_map(s).dom().finite(),
        pairs_to_map(s).dom().len() == s.len(),
    decreases s.len(),
{
    if s.len() > 0 {
        let t = s.drop_last();
        lemma_map_len(t);
        assert forall|i: int| 0 <= i < t.len() implies (#[trigger] t[i]).0 != s.last().0 by {
            assert(t[i] == s[i]);
        }
        lemma_absent(t, s.last().0);
    }
}

pub proof fn lemma_update<K, V>(s: Seq<(K, V)>, i: int, v: V)
    requires
        keys_unique(s),
        0 <= i < s.len(),
    ensures
        keys_unique(s.update(i, (s[i].0, v))),
        pairs_to_map(s.update(i, (s[i].0, v))) == pairs_to_map(s).insert(s[i].0, v),
    decreases s.len(),
{
    let u = s.update(i, (s[i].0, v));
    assert forall|a: int, b: int| 0 <= a < b < u.len() implies (#[trigger] u[a]).0 != (
    #[trigger] u[b]).0 by {
        assert(u[a].0 == s[a].0);
        assert(u[b].0 == s[b].0);
    }
    if i == s.len() - 1 {
        assert(u.drop_last() =~= s.drop_last());
    } else {
        let t = s.drop_last();
        assert(u.drop_last() =~= t.update(i, (t[i].0, v)));
        lemma_update(t, i, v);
        assert(s[i].0 != s.last().0);
        assert(pairs_to_map(u) =~= pairs_to_map(s).insert(s[i].0, v));
    }
}

pub proof fn lemma_remove<K, V>(s: Seq<(K, V)>, i: int)
    requires
        keys_unique(s),
        0 <= i < s.len(),
    ensures
        keys_unique(s.remove(i)),
        pairs_to_map(s.remove(i)) == pairs_to_map(s).remove(s[i].0),
    decreases s.len(),
{
    let u = s.remove(i);
    assert forall|a: int, b: int| 0 <= a < b < u.len() implies (#[trigger] u[a]).0 != (
    #[trigger] u[b]).0 by {
        let a2 = if a < i { a } else { a + 1 };
        let b2 = if b < i { b } else { b + 1 };
        assert(u[a] == s[a2]);
        assert(u[b] == s[b2]);
    }
    let t = s.drop_last();
    if i == s.len() - 1 {
        assert(u =~= t);
        assert forall|j: int| 0 <= j < t.len() implies (#[trigger] t[j]).0 != s[i].0 by {
            assert(t[j] == s[j]);
        }
        lemma_absent(t, s[i].0);
        assert(pairs_to_map(u) =~= pairs_to_map(s).remove(s[i].0));
    } else {
        assert(u.drop_last() =~= t.remove(i));
        assert(u.last() == s.last());
        assert(t[i] == s[i]);
        lemma_remove(t, i);
        assert(s[i].0 != s.last().0);
        assert(pairs_to_map(u) =~= pairs_to_map(s).remove(s[i].0));
    }
}

/// Compares two strings character by character.
pub fn text_eq(a: &str, b: &str) -> (r: bool)
    ensures
        r == (a@ == b@),
{
    let n = a.unicode_len();
    if n != b.unicode_len() {
        return false;
    }
    let mut i: usize = 0;
    while i < n
        invariant
            n == a@.len(),
            n == b@.len(),
            i <= n,
            forall|j: int| 0 <= j < i ==> a@[j] == b@[j],
        decreases n - i,
    {
        if a.get_char(i) != b.get_char(i) {
            return false;
        }
        i += 1;
    }
    assert(a@ =~= b@);
    true
}

/// `a` sorts at or before `b`: character by character by code point, a prefix first. This
/// is the order of `str`'s comparison operators.
pub open spec fn text_le(a: Seq<char>, b: Seq<char>) -> bool
    decreases a.len(),
{
    if a.len() == 0 {
        true
    } else if b.len() == 0 {
        false
    } else if (a[0] as u32) != (b[0] as u32) {
        (a[0] as u32) < (b[0] as u32)
    } else {
        text_le(a.drop_first(), b.drop_first())
    }
}

/// Any two strings are ordered one way or the other.
pub proof fn lemma_text_le_total(a: Seq<char>, b: Seq<char>)
    ensures
        text_le(a, b) || text_le(b, a),
    decreases a.len(),
{
    if a.len() > 0 && b.len() > 0 && (a[0] as u32) == (b[0] as u32) {
        lemma_text_le_total(a.drop_first(), b.drop_first());
    }
}

/// The order is transitive.
pub proof fn lemma_text_le_trans(a: Seq<char>, b: Seq<char>, c: Seq<char>)
    requires
        text_le(a, b),
        text_le(b, c),
    ensures
        text_le(a, c),
    decreases a.len(),
{
    if a.len() > 0 && b.len() > 0 && c.len() > 0 && (a[0] as u32) == (b[0] as u32) && (b[0] as u32) == (c[0] as u32) {
        lemma_text_le_trans(a.drop_first(), b.drop_first(), c.drop_first());
    }
}

proof fn lemma_text_le_suffix(a: Seq<char>, b: Seq<char>, i: int)
    requires
        0 <= i <= a.len(),
        i <= b.len(),
        forall|k: int| 0 <= k < i ==> (a[k] as u32) == (b[k] as u32),
    ensures
        text_le(a, b) == text_le(a.subrange(i, a.len() as int), b.subrange(i, b.len() as int)),
    decreases i,
{
    if i > 0 {
        assert(a.drop_first().subrange(i - 1, a.len() - 1) =~= a.subrange(i, a.len() as int));
        assert(b.drop_first().subrange(i - 1, b.len() - 1) =~= b.subrange(i, b.len() as int));
        lemma_text_le_suffix(a.drop_first(), b.drop_first(), i - 1);
    } else {
        assert(a.subrange(0, a.len() as int) =~= a);
        assert(b.subrange(0, b.len() as int) =~= b);
    }
}

/// Compares two strings in `text_le` order.
pub fn text_le_exec(a: &str, b: &str) -> (r: bool)
    ensures
        r == text_le(a@, b@),
{
    let n = a.unicode_len();
    let m = b.unicode_len();
    let mut i: usize = 0;
    while i < n && i < m && (a.get_char(i) as u32) == (b.get_char(i) as u32)
        invariant
            n == a@.len(),
            m == b@.len(),
            i <= n,
            i <= m,
            forall|k: int| 0 <= k < i ==> (a@[k] as u32) == (b@[k] as u32),
        decreases n - i,
    {
        i += 1;
    }
    proof {
        lemma_text_le_suffix(a@, b@, i as int);
    }
    let ghost sa = a@.subrange(i as int, n as int);
    let ghost sb = b@.subrange(i as int, m as int);
    if i == n {
        true
    } else if i == m {
        false
    } else {
        assert(sa[0] == a@[i as int] && sb[0] == b@[i as int]);
        (a.get_char(i) as u32) < (b.get_char(i) as u32)
    }
}

/// A string-keyed map of strings; iteration follows the order in which keys were first
/// inserted.
#[derive(Debug)]
pub struct StringMap {
    entries: Vec<(String, String)>,
}

impl StringMap {
    /// The entries as text, in order.
    pub closed spec fn pairs(&self) -> Seq<(Seq<char>, Seq<char>)> {
        self.entries@.map_values(|e: (String, String)| (e.0@, e.1@))
    }

    #[verifier::type_invariant]
    spec fn wf(self) -> bool {
        keys_unique(self.pairs())
    }
}

impl View for StringMap {
    type V = Map<Seq<char>, Seq<char>>;

    open spec fn view(&self) -> Map<Seq<char>, Seq<char>> {
        pairs_to_map(self.pairs())
    }
}

impl Clone for StringMap {
    fn clone(&self) -> (r: Self)
        ensures
            r.pairs() == self.pairs(),
    {
        proof {
            use_type_invariant(self);
        }
        let mut entries: Vec<(String, String)> = Vec::new();
        let mut i: usize = 0;
        while i < self.entries.len()
            invariant
                i <= self.entries@.len(),
                entries@.len() == i,
                forall|j: int| 0 <= j < i ==> (#[trigger] entries@[j]).0@ == self.entries@[j].0@
                    && entries@[j].1@ == self.entries@[j].1@,
            decreases self.entries@.len() - i,
        {
            let e = &self.entries[i];
            entries.push((e.0.clone(), e.1.clone()));
            i += 1;
        }
        assert(entries@.map_values(|e: (String, String)| (e.0@, e.1@)) =~= self.pairs());
        StringMap { entries }
    }
}

impl StringMap {
    /// An empty map.
    pub fn new() -> (r: Self)
        ensures
            r.pairs() == Seq::<(Seq<char>, Seq<char>)>::empty(),
            r@ == Map::<Seq<char>, Seq<char>>::empty(),
    {
        let r = StringMap { entries: Vec::new() };
        assert(r.pairs() =~= Seq::<(Seq<char>, Seq<char>)>::empty());
        r
    }

    /// Returns `true` if both maps hold the same entries in the same order.
    pub fn same_pairs(&self, other: &StringMap) -> (r: bool)
        ensures
            r == (self.pairs() == other.pairs()),
    {
        if self.entries.len() != other.entries.len() {
            return false;
        }
        let mut i: usize = 0;
        while i < self.entries.len()
            invariant
                i <= self.entries@.len(),
                self.entries@.len() == other.entries@.len(),
                forall|j: int| 0 <= j < i ==> self.pairs()[j] == other.pairs()[j],
            decreases self.entries@.len() - i,
        {
            if !(self.entries[i].0 == other.entries[i].0) || !(self.entries[i].1 == other.entries[i].1) {
                assert(self.pairs()[i as int] != other.pairs()[i as int]);
                return false;
            }
            i += 1;
        }
        assert(self.pairs() =~= other.pairs());
        true
    }

    /// The number of keys.
    pub fn len(&self) -> (r: usize)
        ensures
            r == self.pairs().len(),
            r == self@.len(),
            self@.dom().finite(),
            keys_unique(self.pairs()),
    {
        proof {
            use_type_invariant(self);
            lemma_map_len(self.pairs());
        }
        self.entries.len()
    }

    /// Returns `true` if the map has no keys.
    pub fn is_empty(&self) -> (r: bool)
        ensures
            r == (self@.len() == 0),
            r == (self.pairs().len() == 0),
    {
        self.len() == 0
    }

    /// The key of the `i`-th entry.
    pub fn key_at(&self, i: usize) -> (r: &String)
        requires
            i < self.pairs().len(),
        ensures
            r@ == self.pairs()[i as int].0,
    {
        &self.entries[i].0
    }

    /// The value of the `i`-th entry.
    pub fn value_at(&self, i: usize) -> (r: &String)
        requires
            i < self.pairs().len(),
        ensures
            r@ == self.pairs()[i as int].1,
    {
        &self.entries[i].1
    }

    /// The position of `key`, if present.
    fn find(&self, key: &str) -> (r: Option<usize>)
        ensures
            match r {
                Some(i) => i < self.pairs().len() && self.pairs()[i as int].0 == key@,
                None => forall|j: int|
                    0 <= j < self.pairs().len() ==> (#[trigger] self.pairs()[j]).0 != key@,
            },
    {
        let mut i: usize = 0;
        while i < self.entries.len()
            invariant
                i <= self.entries@.len(),
                self.pairs().len() == self.entries@.len(),
                forall|j: int| 0 <= j < i ==> (#[trigger] self.pairs()[j]).0 != key@,
            decreases self.entries@.len() - i,
        {
            assert(self.pairs()[i as int] == (self.entries@[i as int].0@, self.entries@[i as int].1@));
            if text_eq(self.entries[i].0.as_str(), key) {
                return Some(i);
            }
            i += 1;
        }
        None
    }

    /// Returns `true` if the map holds `key`.
    pub fn contains_key(&self, key: &str) -> (r: bool)
        ensures
            r == self@.contains_key(key@),
    {
        proof {
            use_type_invariant(self);
        }
        match self.find(key) {
            Some(i) => {
                proof {
                    lemma_lookup(self.pairs(), i as int);
                }
                true
            },
            None => {
                proof {
                    lemma_absent(self.pairs(), key@);
                }
                false
            },
        }
    }

    /// The value stored under `key`, if any.
    pub fn get(&self, key: &str) -> (r: Option<&String>)
        ensures
            r is Some <==> self@.contains_key(key@),
            r is Some ==> r->Some_0@ == self@[key@],
    {
        proof {
            use_type_invariant(self);
        }
        match self.find(key) {
            Some(i) => {
                proof {
                    lemma_lookup(self.pairs(), i as int);
                }
                Some(&self.entries[i].1)
            },
            None => {
                proof {
                    lemma_absent(self.pairs(), key@);
                }
                None
            },
        }
    }

    /// Stores `value` under `key`, replacing any earlier value; a new key goes last.
    pub fn insert(&mut self, key: String, value: String)
        ensures
            final(self)@ == old(self)@.insert(key@, value@),
            old(self)@.contains_key(key@) ==> final(self).pairs().len() == old(self).pairs().len(),
            !old(self)@.contains_key(key@) ==> final(self).pairs() == old(self).pairs().push(
                (key@, value@),
            ),
    {
        proof {
            use_type_invariant(&*self);
        }
        match self.find(key.as_str()) {
            Some(i) => {
                proof {
                    lemma_lookup(self.pairs(), i as int);
                    lemma_update(self.pairs(), i as int, value@);
                }
                let ghost before = self.pairs();
                let mut entries: Vec<(String, String)> = Vec::new();
                std::mem::swap(&mut entries, &mut self.entries);
                entries.set(i, (key, value));
                assert(entries@.map_values(|e: (String, String)| (e.0@, e.1@)) =~= before.update(
                    i as int,
                    (before[i as int].0, value@),
                ));
                self.entries = entries;
            },
            None => {
                proof {
                    lemma_absent(self.pairs(), key@);
                }
                let ghost before = self.pairs();
                let mut entries: Vec<(String, String)> = Vec::new();
                std::mem::swap(&mut entries, &mut self.entries);
                entries.push((key, value));
                assert(entries@.map_values(|e: (String, String)| (e.0@, e.1@)) =~= before.push(
                    (key@, value@),
                ));
                assert(before.push((key@, value@)).drop_last() =~= before);
                self.entries = entries;
                assert(self.pairs().drop_last() =~= before);
            },
        }
    }

    /// Removes `key` and its value, if present.
    pub fn remove(&mut self, key: &str)
        ensures
            final(self)@ == old(self)@.remove(key@),
    {
        proof {
            use_type_invariant(&*self);
        }
        match self.find(key) {
            Some(i) => {
                proof {
                    lemma_remove(self.pairs(), i as int);
                }
                let ghost before = self.pairs();
                let mut entries: Vec<(String, String)> = Vec::new();
                std::mem::swap(&mut entries, &mut self.entries);
                let _ = entries.remove(i);
                assert(entries@.map_values(|e: (String, String)| (e.0@, e.1@)) =~= before.remove(
                    i as int,
                ));
                self.entries = entries;
            },
            None => {
                proof {
                    lemma_absent(self.pairs(), key@);
                    assert(self@ =~= self@.remove(key@));
                }
            },
        }
    }

    /// Builds a map from `(key, value)` pairs; a later pair for a key replaces the earlier.
    pub fn from_pairs(pairs: &Vec<(&str, &str)>) -> (r: Self)
        ensures
            r@ == pairs_to_map(pairs@.map_values(|p: (&str, &str)| (p.0@, p.1@))),
    {
        let ghost src = pairs@.map_values(|p: (&str, &str)| (p.0@, p.1@));
        let mut r = StringMap::new();
        let mut i: usize = 0;
        while i < pairs.len()
            invariant
                i <= pairs@.len(),
                src.len() == pairs@.len(),
                src == pairs@.map_values(|p: (&str, &str)| (p.0@, p.1@)),
                r@ == pairs_to_map(src.subrange(0, i as int)),
            decreases pairs@.len() - i,
        {
            r.insert(String::from_str(pairs[i].0), String::from_str(pairs[i].1));
            assert(src.subrange(0, i + 1).drop_last() =~= src.subrange(0, i as int));
            i += 1;
        }
        assert(src.subrange(0, i as int) =~= src);
        r
    }
}

} // verus!
