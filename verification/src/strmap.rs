//! A map with text keys that keeps its entries in increasing key order,
//! each key at most once: the shape of a `BTreeMap<String, V>`.
use vstd::prelude::*;
use crate::text::{chars_of, compare_chars, lemma_lex_irreflexive, lemma_lex_total, lemma_lex_transitive, lex_lt, str_eq, Order3};

verus! {

/// Keys strictly increase along the entries.
pub open spec fn keys_increase<V>(s: Seq<(Seq<char>, V)>) -> bool {
    forall|i: int, j: int| 0 <= i < j < s.len() ==> lex_lt(#[trigger] s[i].0, #[trigger] s[j].0)
}

/// Some entry maps `k` to `v`.
pub open spec fn has_entry<V>(s: Seq<(Seq<char>, V)>, k: Seq<char>, v: V) -> bool {
    exists|i: int| 0 <= i < s.len() && #[trigger] s[i] == (k, v)
}

/// Some entry has key `k`.
pub open spec fn has_key<V>(s: Seq<(Seq<char>, V)>, k: Seq<char>) -> bool {
    exists|i: int| 0 <= i < s.len() && #[trigger] s[i].0 == k
}

/// The entries with their keys taken by view.
pub open spec fn entry_views<V>(e: Seq<(String, V)>) -> Seq<(Seq<char>, V)> {
    e.map_values(|p: (String, V)| (p.0@, p.1))
}

/// A map from text keys to values, iterated in increasing key order.
#[derive(Debug)]
pub struct StrMap<V> {
    entries: Vec<(String, V)>,
}

impl<V: Clone> Clone for StrMap<V> {
    /// The same keys in the same order, each value a clone of the original.
    fn clone(&self) -> (r: Self)
        ensures
            r@.len() == self@.len(),
            forall|i: int| 0 <= i < self@.len() ==> #[trigger] r@[i].0 == self@[i].0,
            forall|i: int| 0 <= i < self@.len() ==> cloned(self@[i].1, #[trigger] r@[i].1),
    {
        proof {
            use_type_invariant(self);
        }
        let mut entries: Vec<(String, V)> = Vec::new();
        let mut i: usize = 0;
        while i < self.entries.len()
            invariant
                i <= self@.len(),
                self@ == entry_views(self.entries@),
                keys_increase(self@),
                entries@.len() == i,
                forall|j: int| 0 <= j < i ==> #[trigger] entry_views(entries@)[j].0 == self@[j].0,
                forall|j: int| 0 <= j < i ==> cloned(self@[j].1, #[trigger] entry_views(entries@)[j].1),
            decreases self@.len() - i,
        {
            let k = self.entries[i].0.clone();
            let v = self.entries[i].1.clone();
            let ghost before = entry_views(entries@);
            let ghost pair = (k@, v);
            entries.push((k, v));
            assert(entry_views(entries@) =~= before.push(pair));
            i = i + 1;
        }
        proof {
            assert forall|a: int, b: int| 0 <= a < b < entry_views(entries@).len() implies lex_lt(
                #[trigger] entry_views(entries@)[a].0,
                #[trigger] entry_views(entries@)[b].0,
            ) by {
                assert(lex_lt(self@[a].0, self@[b].0));
            }
        }
        StrMap { entries }
    }
}

impl<V> View for StrMap<V> {
    type V = Seq<(Seq<char>, V)>;

    closed spec fn view(&self) -> Seq<(Seq<char>, V)> {
        entry_views(self.entries@)
    }
}

impl<V> StrMap<V> {
    #[verifier::type_invariant]
    spec fn wf(self) -> bool {
        keys_increase(entry_views(self.entries@))
    }

    /// An empty map.
    pub fn new() -> (m: Self)
        ensures
            m@ == Seq::<(Seq<char>, V)>::empty(),
    {
        let m = StrMap { entries: Vec::new() };
        assert(m@ =~= Seq::<(Seq<char>, V)>::empty());
        m
    }

    /// Number of entries.
    pub fn len(&self) -> (n: usize)
        ensures
            n == self@.len(),
    {
        self.entries.len()
    }

    /// The entries in increasing key order.
    pub fn entries(&self) -> (e: &Vec<(String, V)>)
        ensures
            entry_views(e@) == self@,
            keys_increase(self@),
    {
        proof {
            use_type_invariant(self);
        }
        &self.entries
    }

    /// Position of the first entry whose key is not below `k`.
    fn position(&self, k: &Vec<char>) -> (i: usize)
        ensures
            i <= self@.len(),
            forall|j: int| 0 <= j < i ==> lex_lt(#[trigger] self@[j].0, k@),
            i < self@.len() ==> !lex_lt(self@[i as int].0, k@),
    {
        let mut i: usize = 0;
        while i < self.entries.len()
            invariant
                i <= self@.len(),
                self@ == entry_views(self.entries@),
                forall|j: int| 0 <= j < i ==> lex_lt(#[trigger] self@[j].0, k@),
            decreases self@.len() - i,
        {
            let key = chars_of(self.entries[i].0.as_str());
            match compare_chars(&key, k) {
                Order3::Less => {},
                _ => {
                    return i;
                },
            }
            i = i + 1;
        }
        i
    }

    /// The value stored under `k`.
    pub fn get(&self, k: &str) -> (r: Option<&V>)
        ensures
            match r {
                Some(v) => has_entry(self@, k@, *v),
                None => !has_key(self@, k@),
            },
    {
        proof {
            use_type_invariant(self);
        }
        let kv = chars_of(k);
        let i: usize = self.position(&kv);
        if i < self.entries.len() && str_eq(self.entries[i].0.as_str(), k) {
            assert(self@[i as int] == (k@, self.entries@[i as int].1));
            Some(&self.entries[i].1)
        } else {
            proof {
                assert forall|j: int| 0 <= j < self@.len() implies #[trigger] self@[j].0 != k@ by {
                    if j < i {
                        lemma_lex_irreflexive(k@);
                    } else if j > i {
                        lemma_lex_total(self@[i as int].0, k@);
                        if self@[j].0 == k@ {
                            lemma_lex_transitive(self@[i as int].0, self@[j].0, k@);
                            assert(lex_lt(self@[i as int].0, self@[j].0));
                        }
                    }
                }
            }
            None
        }
    }

    /// Whether some entry has key `k`.
    pub fn contains_key(&self, k: &str) -> (r: bool)
        ensures
            r == has_key(self@, k@),
    {
        match self.get(k) {
            Some(v) => {
                proof {
                    let j = choose|j: int| 0 <= j < self@.len() && #[trigger] self@[j] == (k@, *v);
                    assert(self@[j].0 == k@);
                }
                true
            },
            None => false,
        }
    }

    /// Stores `v` under `k`, replacing the value the key had.
    pub fn insert(&mut self, k: String, v: V)
        ensures
            keys_increase(final(self)@),
            has_entry(final(self)@, k@, v),
            forall|k2: Seq<char>, v2: V|
                k2 != k@ ==> (has_entry(final(self)@, k2, v2) == has_entry(old(self)@, k2, v2)),
    {
        proof {
            use_type_invariant(&*self);
        }
        let kv = chars_of(k.as_str());
        let i: usize = self.position(&kv);
        let ghost before = self@;
        let replace = i < self.entries.len() && str_eq(self.entries[i].0.as_str(), k.as_str());
        let mut e: Vec<(String, V)> = Vec::new();
        std::mem::swap(&mut e, &mut self.entries);
        if replace {
            e.set(i, (k, v));
            proof {
                assert(entry_views(e@) =~= before.update(i as int, (kv@, v)));
                let s = entry_views(e@);
                assert forall|a: int, b: int| 0 <= a < b < s.len() implies lex_lt(
                    #[trigger] s[a].0,
                    #[trigger] s[b].0,
                ) by {
                    assert(s[a].0 == before[a].0);
                    assert(s[b].0 == before[b].0);
                }
            }
            self.entries = e;
            proof {
                assert(self@ =~= before.update(i as int, (kv@, v)));
                assert(self@[i as int] == (kv@, v));
                assert forall|k2: Seq<char>, v2: V| k2 != kv@ implies
                    (has_entry(self@, k2, v2) == has_entry(before, k2, v2)) by {
                    if has_entry(self@, k2, v2) {
                        let j = choose|j: int| 0 <= j < self@.len() && #[trigger] self@[j] == (k2, v2);
                        assert(before[j] == (k2, v2));
                    }
                    if has_entry(before, k2, v2) {
                        let j = choose|j: int| 0 <= j < before.len() && #[trigger] before[j] == (k2, v2);
                        assert(self@[j] == (k2, v2));
                    }
                }
            }
        } else {
            proof {
                if i < before.len() {
                    lemma_lex_total(before[i as int].0, kv@);
                }
            }
            e.insert(i, (k, v));
            proof {
                assert(entry_views(e@) =~= before.insert(i as int, (kv@, v)));
                let s = entry_views(e@);
                assert forall|a: int, b: int| 0 <= a < b < s.len() implies lex_lt(
                    #[trigger] s[a].0,
                    #[trigger] s[b].0,
                ) by {
                    if b == i {
                        assert(s[a] == before[a]);
                    } else if a == i {
                        assert(s[b] == before[b - 1]);
                        if b - 1 > i {
                            lemma_lex_transitive(kv@, before[i as int].0, before[b - 1].0);
                        }
                    } else if a > i {
                        assert(s[a] == before[a - 1]);
                        assert(s[b] == before[b - 1]);
                    } else if b > i {
                        assert(s[a] == before[a]);
                        assert(s[b] == before[b - 1]);
                    } else {
                        assert(s[a] == before[a]);
                        assert(s[b] == before[b]);
                    }
                }
            }
            self.entries = e;
            proof {
                assert(self@ =~= before.insert(i as int, (kv@, v)));
                assert(self@[i as int] == (kv@, v));
                assert forall|a: int, b: int| 0 <= a < b < self@.len() implies lex_lt(
                    #[trigger] self@[a].0,
                    #[trigger] self@[b].0,
                ) by {
                    if b == i {
                        assert(self@[a] == before[a]);
                    } else if a == i {
                        assert(self@[b] == before[b - 1]);
                        if b - 1 > i {
                            lemma_lex_transitive(kv@, before[i as int].0, before[b - 1].0);
                        }
                    } else if a > i {
                        assert(self@[a] == before[a - 1]);
                        assert(self@[b] == before[b - 1]);
                    } else if b > i {
                        assert(self@[a] == before[a]);
                        assert(self@[b] == before[b - 1]);
                    } else {
                        assert(self@[a] == before[a]);
                        assert(self@[b] == before[b]);
                    }
                }
                assert forall|k2: Seq<char>, v2: V| k2 != kv@ implies
                    (has_entry(self@, k2, v2) == has_entry(before, k2, v2)) by {
                    if has_entry(self@, k2, v2) {
                        let j = choose|j: int| 0 <= j < self@.len() && #[trigger] self@[j] == (k2, v2);
                        if j < i {
                            assert(before[j] == (k2, v2));
                        } else {
                            assert(before[j - 1] == (k2, v2));
                        }
                    }
                    if has_entry(before, k2, v2) {
                        let j = choose|j: int| 0 <= j < before.len() && #[trigger] before[j] == (k2, v2);
                        if j < i {
                            assert(self@[j] == (k2, v2));
                        } else {
                            assert(self@[j + 1] == (k2, v2));
                        }
                    }
                }
            }
        }
    }

    /// The entries, in increasing key order, taken out of the map.
    pub fn into_entries(self) -> (e: Vec<(String, V)>)
        ensures
            entry_views(e@) == self@,
            keys_increase(self@),
    {
        proof {
            use_type_invariant(&self);
        }
        self.entries
    }
}

/// In a map whose keys increase, a key has at most one value.
pub proof fn lemma_entry_unique<V>(s: Seq<(Seq<char>, V)>, k: Seq<char>, v1: V, v2: V)
    requires
        keys_increase(s),
        has_entry(s, k, v1),
        has_entry(s, k, v2),
    ensures
        v1 == v2,
{
    let a = choose|a: int| 0 <= a < s.len() && #[trigger] s[a] == (k, v1);
    let b = choose|b: int| 0 <= b < s.len() && #[trigger] s[b] == (k, v2);
    lemma_lex_irreflexive(k);
    if a < b {
        assert(lex_lt(s[a].0, s[b].0));
    } else if b < a {
        assert(lex_lt(s[b].0, s[a].0));
    }
}

/// Reading a key right after storing a value under it gives that value:
/// whatever `get` then finds under `k` is `v`.
pub proof fn lemma_read_after_write<V>(after: Seq<(Seq<char>, V)>, k: Seq<char>, v: V, found: V)
    requires
        keys_increase(after),
        has_entry(after, k, v),
        has_entry(after, k, found),
    ensures
        found == v,
{
    lemma_entry_unique(after, k, v, found);
}

/// Two maps whose keys increase and that hold the same entries are the
/// same sequence: the order of the entries does not depend on the order
/// in which they were stored.
pub proof fn lemma_same_entries_same_order<V>(a: Seq<(Seq<char>, V)>, b: Seq<(Seq<char>, V)>)
    requires
        keys_increase(a),
        keys_increase(b),
        forall|k: Seq<char>, v: V| has_entry(a, k, v) == has_entry(b, k, v),
    ensures
        a == b,
    decreases a.len(),
{
    if a.len() == 0 {
        if b.len() > 0 {
            assert(has_entry(b, b[0].0, b[0].1));
        }
        assert(a =~= b);
    } else if b.len() == 0 {
        assert(has_entry(a, a[0].0, a[0].1));
    } else {
        assert(has_entry(a, a[0].0, a[0].1));
        let j = choose|j: int| 0 <= j < b.len() && #[trigger] b[j] == (a[0].0, a[0].1);
        assert(has_entry(b, b[0].0, b[0].1));
        let i = choose|i: int| 0 <= i < a.len() && #[trigger] a[i] == (b[0].0, b[0].1);
        if j > 0 {
            assert(lex_lt(b[0].0, b[j].0));
            if i > 0 {
                assert(lex_lt(a[0].0, a[i].0));
                lemma_lex_transitive(a[0].0, b[0].0, a[0].0);
                lemma_lex_irreflexive(a[0].0);
            } else {
                lemma_lex_irreflexive(b[0].0);
            }
        }
        assert(a[0] == b[0]);
        let ta = a.drop_first();
        let tb = b.drop_first();
        assert forall|x: int, y: int| 0 <= x < y < ta.len() implies lex_lt(#[trigger] ta[x].0, #[trigger] ta[y].0) by {
            assert(ta[x] == a[x + 1] && ta[y] == a[y + 1]);
        }
        assert forall|x: int, y: int| 0 <= x < y < tb.len() implies lex_lt(#[trigger] tb[x].0, #[trigger] tb[y].0) by {
            assert(tb[x] == b[x + 1] && tb[y] == b[y + 1]);
        }
        assert forall|k: Seq<char>, v: V| has_entry(ta, k, v) == has_entry(tb, k, v) by {
            if has_entry(ta, k, v) {
                let x = choose|x: int| 0 <= x < ta.len() && #[trigger] ta[x] == (k, v);
                assert(a[x + 1] == (k, v));
                assert(has_entry(b, k, v));
                let y = choose|y: int| 0 <= y < b.len() && #[trigger] b[y] == (k, v);
                if y == 0 {
                    assert(lex_lt(a[0].0, a[x + 1].0));
                    lemma_lex_irreflexive(k);
                }
                assert(tb[y - 1] == (k, v));
            }
            if has_entry(tb, k, v) {
                let y = choose|y: int| 0 <= y < tb.len() && #[trigger] tb[y] == (k, v);
                assert(b[y + 1] == (k, v));
                assert(has_entry(a, k, v));
                let x = choose|x: int| 0 <= x < a.len() && #[trigger] a[x] == (k, v);
                if x == 0 {
                    assert(lex_lt(b[0].0, b[y + 1].0));
                    lemma_lex_irreflexive(k);
                }
                assert(ta[x - 1] == (k, v));
            }
        }
        lemma_same_entries_same_order(ta, tb);
        assert(a =~= seq![a[0]] + ta);
        assert(b =~= seq![b[0]] + tb);
    }
}

} // verus!
