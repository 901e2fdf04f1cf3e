//! Maps keyed by text, kept as association lists in insertion order.
//!
//! A lookup finds the last entry of a key; insertion replaces that entry
//! or appends a new one, so a list built by these operations holds each
//! key once.
use vstd::prelude::*;

verus! {

/// The position of the last entry for `k`, if any.
pub open spec fn key_pos<V>(s: Seq<(Seq<char>, V)>, k: Seq<char>) -> Option<int>
    decreases s.len(),
{
    if s.len() == 0 {
        None
    } else if s.last().0 == k {
        Some(s.len() - 1)
    } else {
        key_pos(s.drop_last(), k)
    }
}

/// The value of `k`, if any.
pub open spec fn lookup<V>(s: Seq<(Seq<char>, V)>, k: Seq<char>) -> Option<V> {
    match key_pos(s, k) {
        Some(i) => Some(s[i].1),
        None => None,
    }
}

/// `s` with `k` mapped to `v`.
pub open spec fn assoc_insert<V>(s: Seq<(Seq<char>, V)>, k: Seq<char>, v: V) -> Seq<(Seq<char>, V)> {
    match key_pos(s, k) {
        Some(i) => s.update(i, (k, v)),
        None => s.push((k, v)),
    }
}

/// Entries of keys other than `k`.
pub open spec fn key_other_than<V>(k: Seq<char>) -> spec_fn((Seq<char>, V)) -> bool {
    |e: (Seq<char>, V)| e.0 != k
}

/// `s` without `k`.
pub open spec fn assoc_remove<V>(s: Seq<(Seq<char>, V)>, k: Seq<char>) -> Seq<(Seq<char>, V)> {
    s.filter(key_other_than::<V>(k))
}

/// `s` with every entry of `more` inserted in order.
pub open spec fn assoc_insert_all<V>(s: Seq<(Seq<char>, V)>, more: Seq<(Seq<char>, V)>) -> Seq<(Seq<char>, V)>
    decreases more.len(),
{
    if more.len() == 0 {
        s
    } else {
        assoc_insert(assoc_insert_all(s, more.drop_last()), more.last().0, more.last().1)
    }
}

/// Each key occurs once.
pub open spec fn unique_keys<V>(s: Seq<(Seq<char>, V)>) -> bool {
    forall|i: int, j: int| 0 <= i < j < s.len() ==> #[trigger] s[i].0 != #[trigger] s[j].0
}

/// Two lists map every key to the same value.
pub open spec fn same_lookups<V>(a: Seq<(Seq<char>, V)>, b: Seq<(Seq<char>, V)>) -> bool {
    forall|k: Seq<char>| #[trigger] lookup(a, k) == lookup(b, k)
}

/// A position found for `k` holds an entry for `k`.
pub proof fn lemma_key_pos_sound<V>(s: Seq<(Seq<char>, V)>, k: Seq<char>)
    ensures
        key_pos(s, k) is Some ==> 0 <= key_pos(s, k)->0 < s.len() && s[key_pos(s, k)->0].0 == k,
        key_pos(s, k) is None ==> forall|i: int| 0 <= i < s.len() ==> (#[trigger] s[i]).0 != k,
    decreases s.len(),
{
    if s.len() > 0 {
        let t = s.drop_last();
        lemma_key_pos_sound(t, k);
        if s.last().0 != k {
            if key_pos(t, k) is Some {
                let i = key_pos(t, k)->0;
                assert(s[i] == t[i]);
            } else {
                assert forall|i: int| 0 <= i < s.len() implies (#[trigger] s[i]).0 != k by {
                    if i < s.len() - 1 {
                        assert(s[i] == t[i]);
                    }
                }
            }
        }
    }
}

/// Positions depend on the keys only.
pub proof fn lemma_key_pos_same_keys<V>(a: Seq<(Seq<char>, V)>, b: Seq<(Seq<char>, V)>, k: Seq<char>)
    requires
        a.len() == b.len(),
        forall|i: int| 0 <= i < a.len() ==> (#[trigger] a[i]).0 == b[i].0,
    ensures
        key_pos(a, k) == key_pos(b, k),
    decreases a.len(),
{
    if a.len() > 0 {
        let a1 = a.drop_last();
        let b1 = b.drop_last();
        assert forall|i: int| 0 <= i < a1.len() implies (#[trigger] a1[i]).0 == b1[i].0 by {
            assert(a1[i] == a[i]);
            assert(b1[i] == b[i]);
        }
        lemma_key_pos_same_keys(a1, b1, k);
        assert(a.last().0 == b.last().0);
    }
}

/// Looking up the inserted key gives the inserted value; other keys keep
/// their values.
pub proof fn lemma_insert_lookup<V>(s: Seq<(Seq<char>, V)>, k: Seq<char>, v: V, other: Seq<char>)
    ensures
        lookup(assoc_insert(s, k, v), k) == Some(v),
        other != k ==> lookup(assoc_insert(s, k, v), other) == lookup(s, other),
{
    lemma_key_pos_sound(s, k);
    lemma_key_pos_sound(s, other);
    let t = assoc_insert(s, k, v);
    match key_pos(s, k) {
        Some(i) => {
            assert forall|j: int| 0 <= j < s.len() implies (#[trigger] s[j]).0 == t[j].0 by {}
            lemma_key_pos_same_keys(s, t, k);
            lemma_key_pos_same_keys(s, t, other);
            if other != k && key_pos(s, other) is Some {
                let j = key_pos(s, other)->0;
                assert(j != i);
                assert(t[j] == s[j]);
            }
        },
        None => {
            assert(t.drop_last() =~= s);
            if other != k && key_pos(s, other) is Some {
                let j = key_pos(s, other)->0;
                assert(t[j] == s[j]);
            }
        },
    }
}

/// Removing a key leaves no entry for it; other keys keep their values.
pub proof fn lemma_remove_lookup<V>(s: Seq<(Seq<char>, V)>, k: Seq<char>, other: Seq<char>)
    ensures
        lookup(assoc_remove(s, k), k) is None,
        other != k ==> lookup(assoc_remove(s, k), other) == lookup(s, other),
    decreases s.len(),
{
    let p = key_other_than::<V>(k);
    if s.len() == 0 {
        assert(s.filter(p) =~= s);
    } else {
        let t = s.drop_last();
        let x = s.last();
        assert(s =~= t.push(x));
        lemma_remove_lookup(t, k, other);
        t.lemma_filter_push(x, p);
        let ft = t.filter(p);
        lemma_key_pos_sound(t, other);
        if key_pos(t, other) is Some {
            let j = key_pos(t, other)->0;
            assert(s[j] == t[j]);
        }
        lemma_key_pos_sound(ft, other);
        lemma_key_pos_sound(ft, k);
        if p(x) {
            assert(ft.push(x).drop_last() =~= ft);
            if key_pos(ft, other) is Some {
                let j = key_pos(ft, other)->0;
                assert(ft.push(x)[j] == ft[j]);
            }
            if key_pos(ft, k) is Some {
                let j = key_pos(ft, k)->0;
                assert(ft.push(x)[j] == ft[j]);
            }
        }
    }
}

/// Insertion keeps keys unique.
pub proof fn lemma_insert_unique<V>(s: Seq<(Seq<char>, V)>, k: Seq<char>, v: V)
    requires
        unique_keys(s),
    ensures
        unique_keys(assoc_insert(s, k, v)),
{
    lemma_key_pos_sound(s, k);
    let t = assoc_insert(s, k, v);
    match key_pos(s, k) {
        Some(i) => {
            assert forall|a: int, b: int| 0 <= a < b < t.len() implies #[trigger] t[a].0 != #[trigger] t[b].0 by {
                assert(s[a].0 == t[a].0);
                assert(s[b].0 == t[b].0);
            }
        },
        None => {
            assert forall|a: int, b: int| 0 <= a < b < t.len() implies #[trigger] t[a].0 != #[trigger] t[b].0 by {
                if b == s.len() {
                    assert(t[a] == s[a]);
                } else {
                    assert(t[a] == s[a]);
                    assert(t[b] == s[b]);
                }
            }
        },
    }
}

/// A map from text to text.
#[derive(Debug)]
pub struct StringMap {
    pub entries: Vec<(String, String)>,
}

/// A map from text to a flag.
#[derive(Debug)]
pub struct FlagMap {
    pub entries: Vec<(String, bool)>,
}

/// The entries of a text map as text values.
pub open spec fn text_entries(v: Seq<(String, String)>) -> Seq<(Seq<char>, Seq<char>)> {
    v.map_values(|e: (String, String)| (e.0@, e.1@))
}

/// The entries of a flag map with text keys.
pub open spec fn flag_entries(v: Seq<(String, bool)>) -> Seq<(Seq<char>, bool)> {
    v.map_values(|e: (String, bool)| (e.0@, e.1))
}

impl View for StringMap {
    type V = Seq<(Seq<char>, Seq<char>)>;

    open spec fn view(&self) -> Seq<(Seq<char>, Seq<char>)> {
        text_entries(self.entries@)
    }
}

impl View for FlagMap {
    type V = Seq<(Seq<char>, bool)>;

    open spec fn view(&self) -> Seq<(Seq<char>, bool)> {
        flag_entries(self.entries@)
    }
}

impl StringMap {
    /// An empty map.
    pub fn new() -> (m: Self)
        ensures
            m@.len() == 0,
    {
        StringMap { entries: Vec::new() }
    }

    /// The position of the last entry of `key`.
    fn find(&self, key: &str) -> (r: Option<usize>)
        ensures
            r is Some <==> key_pos(self@, key@) is Some,
            r is Some ==> r->0 == key_pos(self@, key@)->0,
            r is Some ==> r->0 < self.entries@.len() && self@[r->0 as int].0 == key@,
    {
        let mut i: usize = self.entries.len();
        let ghost s = self@;
        proof {
            assert(s.take(i as int) =~= s);
            lemma_key_pos_sound(s, key@);
        }
        while i > 0
            invariant
                i <= s.len(),
                s == self@,
                key_pos(s, key@) == key_pos(s.take(i as int), key@),
            decreases i,
        {
            proof {
                assert(s.take(i as int).drop_last() =~= s.take(i - 1));
            }
            if str_eq(self.entries[i - 1].0.as_str(), key) {
                return Some(i - 1);
            }
            i = i - 1;
        }
        proof {
            assert(s.take(0) =~= Seq::<(Seq<char>, Seq<char>)>::empty());
        }
        None
    }

    /// The value of `key`, if any.
    pub fn get(&self, key: &str) -> (r: Option<&String>)
        ensures
            match r {
                Some(v) => lookup(self@, key@) == Some(v@),
                None => lookup(self@, key@) is None,
            },
    {
        match self.find(key) {
            Some(i) => Some(&self.entries[i].1),
            None => None,
        }
    }

    /// Whether both maps give every key the same value.
    pub fn agrees_with(&self, other: &StringMap) -> (r: bool)
        ensures
            r == same_lookups(self@, other@),
    {
        let mut i: usize = 0;
        while i < self.entries.len()
            invariant
                0 <= i <= self.entries@.len(),
                forall|j: int| 0 <= j < i ==> lookup(self@, #[trigger] self@[j].0) == lookup(other@, self@[j].0),
            decreases self.entries@.len() - i,
        {
            let k = self.entries[i].0.as_str();
            if !same_text(self.get(k), other.get(k)) {
                return false;
            }
            i = i + 1;
        }
        let mut i: usize = 0;
        while i < other.entries.len()
            invariant
                0 <= i <= other.entries@.len(),
                forall|j: int| 0 <= j < self@.len() ==> lookup(self@, #[trigger] self@[j].0) == lookup(other@, self@[j].0),
                forall|j: int| 0 <= j < i ==> lookup(self@, #[trigger] other@[j].0) == lookup(other@, other@[j].0),
            decreases other.entries@.len() - i,
        {
            let k = other.entries[i].0.as_str();
            if !same_text(self.get(k), other.get(k)) {
                return false;
            }
            i = i + 1;
        }
        proof {
            assert forall|k: Seq<char>| #[trigger] lookup(self@, k) == lookup(other@, k) by {
                lemma_key_pos_sound(self@, k);
                lemma_key_pos_sound(other@, k);
                if key_pos(self@, k) is Some {
                    let p = key_pos(self@, k)->0;
                    assert(self@[p].0 == k);
                } else if key_pos(other@, k) is Some {
                    let p = key_pos(other@, k)->0;
                    assert(other@[p].0 == k);
                }
            }
        }
        true
    }

    /// Whether `key` has a value.
    pub fn contains_key(&self, key: &str) -> (r: bool)
        ensures
            r == lookup(self@, key@) is Some,
    {
        self.find(key).is_some()
    }

    /// Map `key` to `value`.
    pub fn insert(&mut self, key: String, value: String)
        ensures
            final(self)@ == assoc_insert(old(self)@, key@, value@),
    {
        match self.find(key.as_str()) {
            Some(i) => {
                let ghost old_entries = self.entries@;
                self.entries.set(i, (key, value));
                proof {
                    assert(self@ =~= assoc_insert(text_entries(old_entries), key@, value@));
                }
            },
            None => {
                let ghost old_entries = self.entries@;
                self.entries.push((key, value));
                proof {
                    assert(self@ =~= assoc_insert(text_entries(old_entries), key@, value@));
                }
            },
        }
    }

    /// Remove `key`.
    pub fn remove(&mut self, key: &str)
        ensures
            final(self)@ == assoc_remove(old(self)@, key@),
    {
        let ghost s = self@;
        let ghost p = key_other_than::<Seq<char>>(key@);
        let mut out: Vec<(String, String)> = Vec::new();
        let mut i: usize = 0;
        while i < self.entries.len()
            invariant
                0 <= i <= self.entries@.len(),
                s == self@,
                p == key_other_than::<Seq<char>>(key@),
                text_entries(out@) == s.take(i as int).filter(p),
            decreases self.entries@.len() - i,
        {
            let e = &self.entries[i];
            proof {
                assert(s.take(i + 1) =~= s.take(i as int).push(s[i as int]));
                s.take(i as int).lemma_filter_push(s[i as int], p);
            }
            if !str_eq(e.0.as_str(), key) {
                let k = e.0.clone();
                let v = e.1.clone();
                let ghost before = out@;
                out.push((k, v));
                proof {
                    assert(text_entries(out@) =~= text_entries(before).push(s[i as int]));
                }
            }
            i = i + 1;
        }
        proof {
            assert(s.take(s.len() as int) =~= s);
        }
        self.entries = out;
    }

    /// The number of entries.
    pub fn len(&self) -> (r: usize)
        ensures
            r == self@.len(),
    {
        self.entries.len()
    }

    /// Whether the map is empty.
    pub fn is_empty(&self) -> (r: bool)
        ensures
            r == (self@.len() == 0),
    {
        self.entries.len() == 0
    }

    /// A copy of the map.
    pub fn duplicate(&self) -> (r: StringMap)
        ensures
            r@ == self@,
    {
        let mut out: Vec<(String, String)> = Vec::new();
        let mut i: usize = 0;
        while i < self.entries.len()
            invariant
                0 <= i <= self.entries@.len(),
                text_entries(out@) == self@.take(i as int),
            decreases self.entries@.len() - i,
        {
            let k = self.entries[i].0.clone();
            let v = self.entries[i].1.clone();
            let ghost before = out@;
            out.push((k, v));
            proof {
                assert(text_entries(out@) =~= text_entries(before).push(self@[i as int]));
                assert(self@.take(i + 1) =~= self@.take(i as int).push(self@[i as int]));
            }
            i = i + 1;
        }
        proof {
            assert(self@.take(self@.len() as int) =~= self@);
        }
        StringMap { entries: out }
    }
}

impl FlagMap {
    /// An empty map.
    pub fn new() -> (m: Self)
        ensures
            m@.len() == 0,
    {
        FlagMap { entries: Vec::new() }
    }

    /// The position of the last entry of `key`.
    fn find(&self, key: &str) -> (r: Option<usize>)
        ensures
            r is Some <==> key_pos(self@, key@) is Some,
            r is Some ==> r->0 == key_pos(self@, key@)->0,
            r is Some ==> r->0 < self.entries@.len() && self@[r->0 as int].0 == key@,
    {
        let mut i: usize = self.entries.len();
        let ghost s = self@;
        proof {
            assert(s.take(i as int) =~= s);
            lemma_key_pos_sound(s, key@);
        }
        while i > 0
            invariant
                i <= s.len(),
                s == self@,
                key_pos(s, key@) == key_pos(s.take(i as int), key@),
            decreases i,
        {
            proof {
                assert(s.take(i as int).drop_last() =~= s.take(i - 1));
            }
            if str_eq(self.entries[i - 1].0.as_str(), key) {
                return Some(i - 1);
            }
            i = i - 1;
        }
        proof {
            assert(s.take(0) =~= Seq::<(Seq<char>, bool)>::empty());
        }
        None
    }

    /// The flag of `key`, if any.
    pub fn get(&self, key: &str) -> (r: Option<bool>)
        ensures
            r == lookup(self@, key@),
    {
        match self.find(key) {
            Some(i) => Some(self.entries[i].1),
            None => None,
        }
    }

    /// Map `key` to `flag`.
    pub fn insert(&mut self, key: String, flag: bool)
        ensures
            final(self)@ == assoc_insert(old(self)@, key@, flag),
    {
        match self.find(key.as_str()) {
            Some(i) => {
                let ghost old_entries = self.entries@;
                self.entries.set(i, (key, flag));
                proof {
                    assert(self@ =~= assoc_insert(flag_entries(old_entries), key@, flag));
                }
            },
            None => {
                let ghost old_entries = self.entries@;
                self.entries.push((key, flag));
                proof {
                    assert(self@ =~= assoc_insert(flag_entries(old_entries), key@, flag));
                }
            },
        }
    }

    /// The number of entries.
    pub fn len(&self) -> (r: usize)
        ensures
            r == self@.len(),
    {
        self.entries.len()
    }

    /// A copy of the map.
    pub fn duplicate(&self) -> (r: FlagMap)
        ensures
            r@ == self@,
    {
        let mut out: Vec<(String, bool)> = Vec::new();
        let mut i: usize = 0;
        while i < self.entries.len()
            invariant
                0 <= i <= self.entries@.len(),
                flag_entries(out@) == self@.take(i as int),
            decreases self.entries@.len() - i,
        {
            let k = self.entries[i].0.clone();
            let f = self.entries[i].1;
            let ghost before = out@;
            out.push((k, f));
            proof {
                assert(flag_entries(out@) =~= flag_entries(before).push(self@[i as int]));
                assert(self@.take(i + 1) =~= self@.take(i as int).push(self@[i as int]));
            }
            i = i + 1;
        }
        proof {
            assert(self@.take(self@.len() as int) =~= self@);
        }
        FlagMap { entries: out }
    }
}

/// Whether two optional texts are equal.
fn same_text(a: Option<&String>, b: Option<&String>) -> (r: bool)
    ensures
        r == (match (a, b) {
            (Some(x), Some(y)) => x@ == y@,
            (None, None) => true,
            _ => false,
        }),
{
    match (a, b) {
        (Some(x), Some(y)) => str_eq(x.as_str(), y.as_str()),
        (None, None) => true,
        _ => false,
    }
}

/// Whether two texts are equal.
pub fn str_eq(a: &str, b: &str) -> (r: bool)
    ensures
        r == (a@ == b@),
{
    let n = a.unicode_len();
    let m = b.unicode_len();
    if n != m {
        return false;
    }
    let mut i: usize = 0;
    while i < n
        invariant
            n == a@.len(),
            m == b@.len(),
            n == m,
            0 <= i <= n,
            forall|j: int| 0 <= j < i ==> a@[j] == b@[j],
        decreases n - i,
    {
        if a.get_char(i) != b.get_char(i) {
            return false;
        }
        i = i + 1;
    }
    proof {
        assert(a@ =~= b@);
    }
    true
}

} // verus!
