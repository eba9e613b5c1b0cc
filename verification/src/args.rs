//! Building command-line argument lists.
use vstd::prelude::*;
use crate::text::views;

verus! {

/// `[f]` where `on`, else nothing.
pub open spec fn flag_if(on: bool, f: Seq<char>) -> Seq<Seq<char>> {
    if on {
        seq![f]
    } else {
        Seq::<Seq<char>>::empty()
    }
}

/// Appends a copy of `s`.
pub fn push_str(v: &mut Vec<String>, s: &str)
    ensures
        views(final(v)@) == views(old(v)@).push(s@),
{
    let ghost before = v@;
    v.push(s.to_owned());
    assert(views(v@) =~= views(before).push(s@));
}

/// Appends `f` where `on`.
pub fn push_flag(v: &mut Vec<String>, on: bool, f: &str)
    ensures
        views(final(v)@) == views(old(v)@) + flag_if(on, f@),
{
    if on {
        push_str(v, f);
    }
    assert(views(v@) =~= views(old(v)@) + flag_if(on, f@));
}

/// Appends every string of `w`, in order.
pub fn push_all(v: &mut Vec<String>, w: &Vec<String>)
    ensures
        views(final(v)@) == views(old(v)@) + views(w@),
{
    let mut i: usize = 0;
    while i < w.len()
        invariant
            i <= w@.len(),
            views(v@) == views(old(v)@) + views(w@).take(i as int),
        decreases w@.len() - i,
    {
        push_str(v, w[i].as_str());
        assert(views(w@).take(i + 1) =~= views(w@).take(i as int).push(w@[i as int]@));
        i = i + 1;
    }
    assert(views(w@).take(i as int) =~= views(w@));
}

/// A list holding `s` alone.
pub fn single(s: &str) -> (v: Vec<String>)
    ensures
        views(v@) == seq![s@],
{
    let mut v: Vec<String> = Vec::new();
    push_str(&mut v, s);
    assert(views(v@) =~= seq![s@]);
    v
}

/// `with` is `without` with the one word `w` put in somewhere.
pub open spec fn one_word_more(with: Seq<Seq<char>>, without: Seq<Seq<char>>, w: Seq<char>) -> bool {
    exists|i: int| 0 <= i <= without.len() && with == #[trigger] without.insert(i, w)
}

/// A set flag after `h` is `h` with the flag's word put in.
pub proof fn lemma_flag_word(h: Seq<Seq<char>>, w: Seq<char>)
    ensures
        one_word_more(h + flag_if(true, w), h + flag_if(false, w), w),
{
    assert(h + flag_if(true, w) =~= (h + flag_if(false, w)).insert(h.len() as int, w));
}

/// Appending the same words to both lists keeps the one extra word.
pub proof fn lemma_one_word_then(with: Seq<Seq<char>>, without: Seq<Seq<char>>, w: Seq<char>, t: Seq<Seq<char>>)
    requires
        one_word_more(with, without, w),
    ensures
        one_word_more(with + t, without + t, w),
{
    let i = choose|i: int| 0 <= i <= without.len() && with == #[trigger] without.insert(i, w);
    assert(with + t =~= (without + t).insert(i, w));
}

/// Putting the same words before both lists keeps the one extra word.
pub proof fn lemma_one_word_after(p: Seq<Seq<char>>, with: Seq<Seq<char>>, without: Seq<Seq<char>>, w: Seq<char>)
    requires
        one_word_more(with, without, w),
    ensures
        one_word_more(p + with, p + without, w),
{
    let i = choose|i: int| 0 <= i <= without.len() && with == #[trigger] without.insert(i, w);
    assert(p + with =~= (p + without).insert(p.len() + i, w));
}

/// Putting the same words around both lists keeps the one extra word.
pub proof fn lemma_one_word_around(
    p: Seq<Seq<char>>,
    with: Seq<Seq<char>>,
    without: Seq<Seq<char>>,
    t: Seq<Seq<char>>,
    w: Seq<char>,
)
    requires
        one_word_more(with, without, w),
    ensures
        one_word_more(p + with + t, p + without + t, w),
{
    let i = choose|i: int| 0 <= i <= without.len() && with == #[trigger] without.insert(i, w);
    assert(p + with + t =~= (p + without + t).insert(p.len() + i, w));
}

/// Where both lists are built, `with` is `without` with the one word `w` put in.
pub open spec fn adds_word<E>(
    with: Result<Seq<Seq<char>>, E>,
    without: Result<Seq<Seq<char>>, E>,
    w: Seq<char>,
) -> bool {
    match (with, without) {
        (Ok(v1), Ok(v0)) => one_word_more(v1, v0, w),
        _ => true,
    }
}

} // verus!
