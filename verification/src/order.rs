//! Lexicographic order on texts (the order of `str::cmp`, by code point) and
//! sorting of lists of texts.
use vstd::prelude::*;
use vstd::relations::{sorted_by, total_ordering};
use crate::text::{str_views, views};

verus! {

/// `a <= b` in the order of `str::cmp`.
pub open spec fn lex_le(a: Seq<char>, b: Seq<char>) -> bool
    decreases a.len(),
{
    if a.len() == 0 {
        true
    } else if b.len() == 0 {
        false
    } else if a[0] != b[0] {
        a[0] < b[0]
    } else {
        lex_le(a.drop_first(), b.drop_first())
    }
}

pub open spec fn lex_leq() -> spec_fn(Seq<char>, Seq<char>) -> bool {
    |a: Seq<char>, b: Seq<char>| lex_le(a, b)
}

/// A list of texts in the order of `str::cmp` (what `sort()` leaves).
pub open spec fn sorted_texts(s: Seq<Seq<char>>) -> Seq<Seq<char>> {
    s.sort_by(lex_leq())
}

proof fn lemma_lex_reflexive(a: Seq<char>)
    ensures
        lex_le(a, a),
    decreases a.len(),
{
    if a.len() > 0 {
        lemma_lex_reflexive(a.drop_first());
    }
}

proof fn lemma_lex_antisymmetric(a: Seq<char>, b: Seq<char>)
    requires
        lex_le(a, b),
        lex_le(b, a),
    ensures
        a == b,
    decreases a.len(),
{
    if a.len() > 0 && b.len() > 0 {
        lemma_lex_antisymmetric(a.drop_first(), b.drop_first());
        assert(a =~= seq![a[0]] + a.drop_first());
        assert(b =~= seq![b[0]] + b.drop_first());
    } else {
        assert(a =~= b);
    }
}

proof fn lemma_lex_transitive(a: Seq<char>, b: Seq<char>, c: Seq<char>)
    requires
        lex_le(a, b),
        lex_le(b, c),
    ensures
        lex_le(a, c),
    decreases a.len(),
{
    if a.len() > 0 && b.len() > 0 && c.len() > 0 {
        if a[0] == b[0] && b[0] == c[0] {
            lemma_lex_transitive(a.drop_first(), b.drop_first(), c.drop_first());
        }
    }
}

proof fn lemma_lex_connected(a: Seq<char>, b: Seq<char>)
    ensures
        lex_le(a, b) || lex_le(b, a),
    decreases a.len(),
{
    if a.len() > 0 && b.len() > 0 && a[0] == b[0] {
        lemma_lex_connected(a.drop_first(), b.drop_first());
    }
}

/// The order of `str::cmp` is a total order.
pub proof fn lemma_lex_total()
    ensures
        total_ordering(lex_leq()),
{
    assert forall|a: Seq<char>| #[trigger] lex_leq()(a, a) by {
        lemma_lex_reflexive(a);
    }
    assert forall|a: Seq<char>, b: Seq<char>|
        #[trigger] lex_leq()(a, b) && #[trigger] lex_leq()(b, a) implies a == b by {
        lemma_lex_antisymmetric(a, b);
    }
    assert forall|a: Seq<char>, b: Seq<char>, c: Seq<char>|
        #[trigger] lex_leq()(a, b) && #[trigger] lex_leq()(b, c) implies lex_leq()(a, c) by {
        lemma_lex_transitive(a, b, c);
    }
    assert forall|a: Seq<char>, b: Seq<char>|
        #[trigger] lex_leq()(a, b) || #[trigger] lex_leq()(b, a) by {
        lemma_lex_connected(a, b);
    }
}

/// A sorted arrangement of `s` is the sorted list of `s`.
pub proof fn lemma_sorted_is_sorted_texts(r: Seq<Seq<char>>, s: Seq<Seq<char>>)
    requires
        sorted_by(r, lex_leq()),
        r.to_multiset() == s.to_multiset(),
    ensures
        r == sorted_texts(s),
{
    lemma_lex_total();
    s.lemma_sort_by_ensures(lex_leq());
    vstd::seq_lib::lemma_sorted_unique(r, sorted_texts(s), lex_leq());
}

/// Lists with the same elements sort to the same list.
pub proof fn lemma_sorted_texts_permutation(a: Seq<Seq<char>>, b: Seq<Seq<char>>)
    requires
        a.to_multiset() == b.to_multiset(),
    ensures
        sorted_texts(a) == sorted_texts(b),
{
    lemma_lex_total();
    a.lemma_sort_by_ensures(lex_leq());
    b.lemma_sort_by_ensures(lex_leq());
    vstd::seq_lib::lemma_sorted_unique(sorted_texts(a), sorted_texts(b), lex_leq());
}

pub fn lex_le_vec(a: &Vec<char>, b: &Vec<char>) -> (r: bool)
    ensures
        r == lex_le(a@, b@),
{
    let mut i: usize = 0;
    proof {
        assert(a@.skip(0) =~= a@);
        assert(b@.skip(0) =~= b@);
    }
    while i < a.len() && i < b.len() && a[i] == b[i]
        invariant
            i <= a.len(),
            i <= b.len(),
            lex_le(a@, b@) == lex_le(a@.skip(i as int), b@.skip(i as int)),
        decreases a.len() - i,
    {
        proof {
            assert(a@.skip(i as int).drop_first() =~= a@.skip(i + 1));
            assert(b@.skip(i as int).drop_first() =~= b@.skip(i + 1));
        }
        i = i + 1;
    }
    if i == a.len() {
        return true;
    }
    if i == b.len() {
        return false;
    }
    a[i] < b[i]
}

/// Sorts texts in the order of `str::cmp`.
pub fn sort_vecs(v: Vec<Vec<char>>) -> (r: Vec<Vec<char>>)
    ensures
        views(r@) == sorted_texts(views(v@)),
{
    broadcast use vstd::seq_lib::group_to_multiset_ensures;

    proof {
        lemma_lex_total();
    }
    let ghost input = views(v@);
    let mut out: Vec<Vec<char>> = Vec::new();
    let mut i: usize = 0;
    while i < v.len()
        invariant
            i <= v.len(),
            input == views(v@),
            total_ordering(lex_leq()),
            sorted_by(views(out@), lex_leq()),
            views(out@).to_multiset() == input.take(i as int).to_multiset(),
        decreases v.len() - i,
    {
        let x = v[i].clone();
        let mut p: usize = 0;
        while p < out.len() && lex_le_vec(&out[p], &x)
            invariant
                p <= out.len(),
                total_ordering(lex_leq()),
                sorted_by(views(out@), lex_leq()),
                forall|k: int| 0 <= k < p ==> lex_le(#[trigger] views(out@)[k], x@),
            decreases out.len() - p,
        {
            p = p + 1;
        }
        let ghost before = views(out@);
        proof {
            assert(views(out@.insert(p as int, x)) =~= before.insert(p as int, x@));
            let after = before.insert(p as int, x@);
            let le = lex_leq();
            if p < out@.len() {
                assert(!le(before[p as int], x@));
                assert(le(before[p as int], x@) || le(x@, before[p as int]));
            }
            assert forall|a: int, b: int| 0 <= a < b < after.len() implies #[trigger] le(
                after[a],
                after[b],
            ) by {
                if b < p {
                    assert(le(before[a], before[b]));
                } else if a < p && b == p {
                    assert(lex_le(before[a], x@));
                } else if a < p && b > p {
                    if a < b - 1 {
                        assert(le(before[a], before[b - 1]));
                    } else {
                        assert(le(before[a], before[a]));
                    }
                } else if a == p {
                    if b - 1 > p {
                        assert(le(before[p as int], before[b - 1]));
                        assert(le(x@, before[p as int]));
                    } else {
                        assert(le(x@, before[p as int]));
                    }
                } else {
                    assert(le(before[a - 1], before[b - 1]));
                }
            }
            vstd::seq_lib::to_multiset_insert(before, p as int, x@);
            assert(input.take(i + 1) =~= input.take(i as int).push(input[i as int]));
            vstd::seq_lib::to_multiset_build(input.take(i as int), input[i as int]);
        }
        out.insert(p, x);
        i = i + 1;
    }
    assert(input.take(v.len() as int) =~= input);
    proof {
        lemma_sorted_is_sorted_texts(views(out@), input);
    }
    out
}

/// Sorts strings in the order of `str::cmp`.
pub fn sort_strings(v: &Vec<String>) -> (r: Vec<String>)
    ensures
        str_views(r@) == sorted_texts(str_views(v@)),
{
    let cv = crate::text::chars_of_all(v);
    let sorted = sort_vecs(cv);
    crate::text::strings_of_all(&sorted)
}

} // verus!
