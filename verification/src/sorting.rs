//! Ordering records by their name.
use vstd::prelude::*;
use crate::text::{compare_str, lemma_lex_irreflexive, lemma_lex_total, lemma_lex_transitive, lex_lt, Order3};

verus! {

broadcast use vstd::seq_lib::group_to_multiset_ensures;

/// A record that carries a name.
pub trait Named {
    /// The record's name.
    spec fn name_of(&self) -> Seq<char>;

    /// The record's name.
    fn name(&self) -> (r: &str)
        ensures
            r@ == self.name_of();
}

/// Names never decrease along `s`.
pub open spec fn sorted_by_name<T: Named>(s: Seq<T>) -> bool {
    forall|i: int, j: int| 0 <= i < j < s.len() ==> !lex_lt(#[trigger] s[j].name_of(), #[trigger] s[i].name_of())
}

/// The first position of `v` whose name is above `name`.
fn insert_position<T: Named>(v: &Vec<T>, name: &str) -> (p: usize)
    ensures
        p <= v@.len(),
        forall|k: int| 0 <= k < p ==> !lex_lt(name@, #[trigger] v@[k].name_of()),
        p < v@.len() ==> lex_lt(name@, v@[p as int].name_of()),
{
    let mut p: usize = 0;
    while p < v.len()
        invariant
            p <= v@.len(),
            forall|k: int| 0 <= k < p ==> !lex_lt(name@, #[trigger] v@[k].name_of()),
        decreases v@.len() - p,
    {
        match compare_str(name, v[p].name()) {
            Order3::Less => {
                return p;
            },
            _ => {},
        }
        p = p + 1;
    }
    p
}

/// The records of `v`, reordered so that names never decrease.
pub fn sort_by_name<T: Named>(v: Vec<T>) -> (r: Vec<T>)
    ensures
        r@.to_multiset() == v@.to_multiset(),
        sorted_by_name(r@),
{
    let mut v = v;
    let ghost orig = v@;
    let mut r: Vec<T> = Vec::new();
    let mut k: usize = 0;
    let n: usize = v.len();
    assert(orig.take(0) =~= Seq::<T>::empty());
    while k < n
        invariant
            k <= n == orig.len(),
            v@ == orig.skip(k as int),
            r@.to_multiset() == orig.take(k as int).to_multiset(),
            sorted_by_name(r@),
        decreases n - k,
    {
        assert(v@.len() > 0);
        let x = v.remove(0);
        assert(x == orig[k as int]);
        assert(v@ =~= orig.skip(k + 1));
        let ghost before = r@;
        let p: usize = insert_position(&r, x.name());
        let ghost xn = x.name_of();
        r.insert(p, x);
        proof {
            assert(r@ =~= before.insert(p as int, x));
            vstd::seq_lib::to_multiset_insert(before, p as int, x);
            assert(orig.take(k + 1) =~= orig.take(k as int).push(x));
            vstd::seq_lib::to_multiset_build(orig.take(k as int), x);
            assert forall|i: int, j: int| 0 <= i < j < r@.len() implies !lex_lt(
                #[trigger] r@[j].name_of(),
                #[trigger] r@[i].name_of(),
            ) by {
                if j < p {
                    assert(r@[i] == before[i] && r@[j] == before[j]);
                } else if j == p {
                    assert(r@[i] == before[i]);
                    assert(!lex_lt(xn, before[i].name_of()));
                    lemma_lex_total(xn, before[i].name_of());
                    if lex_lt(before[i].name_of(), xn) {
                        lemma_lex_irreflexive(xn);
                        if lex_lt(xn, before[i].name_of()) {
                            lemma_lex_transitive(xn, before[i].name_of(), xn);
                        }
                    }
                } else if i == p {
                    assert(r@[j] == before[j - 1]);
                    // x's name is below the one at p, and that is at most this one.
                    assert(lex_lt(xn, before[p as int].name_of()));
                    if j - 1 > p {
                        assert(!lex_lt(before[j - 1].name_of(), before[p as int].name_of()));
                        lemma_lex_total(before[p as int].name_of(), before[j - 1].name_of());
                        if lex_lt(before[p as int].name_of(), before[j - 1].name_of()) {
                            lemma_lex_transitive(xn, before[p as int].name_of(), before[j - 1].name_of());
                        }
                    }
                    lemma_lex_total(xn, before[j - 1].name_of());
                    if lex_lt(before[j - 1].name_of(), xn) {
                        lemma_lex_transitive(before[j - 1].name_of(), xn, before[j - 1].name_of());
                        lemma_lex_irreflexive(before[j - 1].name_of());
                    }
                } else if i < p {
                    assert(r@[i] == before[i] && r@[j] == before[j - 1]);
                } else {
                    assert(r@[i] == before[i - 1] && r@[j] == before[j - 1]);
                }
            }
        }
        k = k + 1;
    }
    assert(orig.take(n as int) =~= orig);
    r
}

} // verus!
