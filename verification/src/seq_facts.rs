//! Facts about sequences that the table proofs use: what `filter` keeps and
//! how a pairwise property carries over.

use vstd::prelude::*;

verus! {

/// `rel` holds of every two elements, the earlier one first.
pub open spec fn pairwise<A>(s: Seq<A>, rel: spec_fn(A, A) -> bool) -> bool {
    forall|i: int, j: int| 0 <= i < j < s.len() ==> #[trigger] rel(s[i], s[j])
}

/// Filtering keeps only elements of the input sequence that satisfy the predicate,
/// and keeps every such element.
pub proof fn lemma_filter_elements<A>(s: Seq<A>, p: spec_fn(A) -> bool)
    ensures
        forall|i: int|
            0 <= i < s.filter(p).len() ==> p(#[trigger] s.filter(p)[i]) && s.contains(
                s.filter(p)[i],
            ),
        forall|i: int| 0 <= i < s.len() && p(#[trigger] s[i]) ==> s.filter(p).contains(s[i]),
        s.filter(p).len() <= s.len(),
    decreases s.len(),
{
    reveal(Seq::filter);
    if s.len() > 0 {
        let t = s.drop_last();
        lemma_filter_elements(t, p);
        let f = s.filter(p);
        let g = t.filter(p);
        assert forall|i: int| 0 <= i < f.len() implies p(#[trigger] f[i]) && s.contains(f[i]) by {
            if i < g.len() {
                assert(f[i] == g[i]);
                let k = choose|k: int| 0 <= k < t.len() && t[k] == g[i];
                assert(s[k] == t[k]);
            } else {
                assert(f[i] == s.last());
                assert(s[s.len() - 1] == s.last());
            }
        }
        assert forall|i: int| 0 <= i < s.len() && p(#[trigger] s[i]) implies f.contains(s[i]) by {
            if i < s.len() - 1 {
                assert(t[i] == s[i]);
                assert(g.contains(t[i]));
                let k = choose|k: int| 0 <= k < g.len() && g[k] == t[i];
                assert(f[k] == g[k]);
            } else {
                assert(f[f.len() - 1] == s[i]);
            }
        }
    }
}

/// Filtering keeps a pairwise property.
pub proof fn lemma_filter_pairwise<A>(s: Seq<A>, p: spec_fn(A) -> bool, rel: spec_fn(A, A) -> bool)
    requires
        pairwise(s, rel),
    ensures
        pairwise(s.filter(p), rel),
    decreases s.len(),
{
    reveal(Seq::filter);
    if s.len() > 0 {
        let t = s.drop_last();
        assert(pairwise(t, rel)) by {
            assert forall|i: int, j: int| 0 <= i < j < t.len() implies #[trigger] rel(
                t[i],
                t[j],
            ) by {
                assert(t[i] == s[i] && t[j] == s[j]);
            }
        }
        lemma_filter_pairwise(t, p, rel);
        lemma_filter_elements(t, p);
        let f = s.filter(p);
        let g = t.filter(p);
        assert forall|i: int, j: int| 0 <= i < j < f.len() implies #[trigger] rel(f[i], f[j]) by {
            if j < g.len() {
                assert(f[i] == g[i] && f[j] == g[j]);
            } else {
                assert(f[i] == g[i]);
                assert(f[j] == s.last());
                assert(t.contains(g[i]));
                let k = choose|k: int| 0 <= k < t.len() && t[k] == g[i];
                assert(s[k] == t[k]);
                assert(s[s.len() - 1] == s.last());
                assert(rel(s[k], s[s.len() - 1]));
            }
        }
    }
}

/// Appending an element that stands in `rel` to every earlier one keeps a
/// pairwise property.
pub proof fn lemma_push_pairwise<A>(s: Seq<A>, x: A, rel: spec_fn(A, A) -> bool)
    requires
        pairwise(s, rel),
        forall|i: int| 0 <= i < s.len() ==> #[trigger] rel(s[i], x),
    ensures
        pairwise(s.push(x), rel),
{
    let t = s.push(x);
    assert forall|i: int, j: int| 0 <= i < j < t.len() implies #[trigger] rel(t[i], t[j]) by {
        assert(t[i] == s[i]);
        if j < s.len() {
            assert(t[j] == s[j]);
        }
    }
}

/// A step of a filtering loop: the filter of one more element of `s`.
pub proof fn lemma_filter_take_step<A>(s: Seq<A>, p: spec_fn(A) -> bool, i: int)
    requires
        0 <= i < s.len(),
    ensures
        s.take(i + 1).filter(p) == if p(s[i]) {
            s.take(i).filter(p).push(s[i])
        } else {
            s.take(i).filter(p)
        },
{
    assert(s.take(i + 1) =~= s.take(i).push(s[i]));
    s.take(i).lemma_filter_push(s[i], p);
}


/// Filtering by a predicate that holds of nothing gives the empty sequence.
pub proof fn lemma_filter_none<A>(s: Seq<A>, p: spec_fn(A) -> bool)
    requires
        forall|i: int| 0 <= i < s.len() ==> !p(#[trigger] s[i]),
    ensures
        s.filter(p) == Seq::<A>::empty(),
{
    lemma_filter_elements(s, p);
    let f = s.filter(p);
    if f.len() > 0 {
        assert(s.contains(f[0]));
        let k = choose|k: int| 0 <= k < s.len() && s[k] == f[0];
        assert(!p(s[k]));
    }
    assert(f =~= Seq::<A>::empty());
}

/// Filtering by `p` first changes nothing where `q` implies `p`.
pub proof fn lemma_filter_filter_implied<A>(s: Seq<A>, p: spec_fn(A) -> bool, q: spec_fn(A) -> bool)
    requires
        forall|x: A| #[trigger] q(x) ==> p(x),
    ensures
        s.filter(p).filter(q) == s.filter(q),
    decreases s.len(),
{
    if s.len() > 0 {
        let t = s.drop_last();
        lemma_filter_filter_implied(t, p, q);
        assert(s =~= t.push(s.last()));
        t.lemma_filter_push(s.last(), p);
        t.lemma_filter_push(s.last(), q);
        t.filter(p).lemma_filter_push(s.last(), q);
    } else {
        reveal(Seq::filter);
    }
}

/// Filtering by `a` and then by `b` is filtering by their conjunction `c`.
pub proof fn lemma_filter_and<A>(s: Seq<A>, a: spec_fn(A) -> bool, b: spec_fn(A) -> bool, c: spec_fn(A) -> bool)
    requires
        forall|x: A| #[trigger] c(x) == (a(x) && b(x)),
    ensures
        s.filter(a).filter(b) == s.filter(c),
    decreases s.len(),
{
    if s.len() > 0 {
        let t = s.drop_last();
        let x = s.last();
        lemma_filter_and(t, a, b, c);
        assert(s =~= t.push(x));
        t.lemma_filter_push(x, a);
        t.lemma_filter_push(x, c);
        t.filter(a).lemma_filter_push(x, b);
    } else {
        reveal(Seq::filter);
    }
}

/// Filtering and then mapping is mapping and then filtering, where the
/// first test `r` of an element is the second test `g` of its image.
pub proof fn lemma_filter_map<A, B>(s: Seq<A>, f: spec_fn(A) -> B, r: spec_fn(A) -> bool, g: spec_fn(B) -> bool)
    requires
        forall|x: A| #[trigger] r(x) == g(f(x)),
    ensures
        s.filter(r).map_values(f) == s.map_values(f).filter(g),
    decreases s.len(),
{
    if s.len() > 0 {
        let t = s.drop_last();
        let x = s.last();
        lemma_filter_map(t, f, r, g);
        assert(s =~= t.push(x));
        t.lemma_filter_push(x, r);
        assert(s.map_values(f) =~= t.map_values(f).push(f(x)));
        t.map_values(f).lemma_filter_push(f(x), g);
        assert(t.filter(r).push(x).map_values(f) =~= t.filter(r).map_values(f).push(f(x)));
    } else {
        reveal(Seq::filter);
        assert(s.map_values(f) =~= Seq::<B>::empty());
        assert(s.filter(r).map_values(f) =~= Seq::<B>::empty());
    }
}

} // verus!
