//! First-match search over sequences: the model of `Iterator::find`.

use vstd::prelude::*;

verus! {

/// The first element of `s` that satisfies `p`, if any.
pub open spec fn find<T>(s: Seq<T>, p: spec_fn(T) -> bool) -> Option<T>
    decreases s.len(),
{
    if s.len() == 0 {
        None
    } else if p(s[0]) {
        Some(s[0])
    } else {
        find(s.drop_first(), p)
    }
}

/// `i` is the position of the first element of `s` that satisfies `p`.
pub open spec fn is_first<T>(s: Seq<T>, p: spec_fn(T) -> bool, i: int) -> bool {
    &&& 0 <= i < s.len()
    &&& p(s[i])
    &&& forall|j: int| 0 <= j < i ==> !p(#[trigger] s[j])
}

/// No element of `s` satisfies `p`.
pub open spec fn none_match<T>(s: Seq<T>, p: spec_fn(T) -> bool) -> bool {
    forall|j: int| 0 <= j < s.len() ==> !p(#[trigger] s[j])
}

/// A search that stops at the first match finds that element.
pub proof fn lemma_find_first<T>(s: Seq<T>, p: spec_fn(T) -> bool, i: int)
    requires
        is_first(s, p, i),
    ensures
        find(s, p) == Some(s[i]),
    decreases i,
{
    if i > 0 {
        assert(!p(s[0]));
        let t = s.drop_first();
        assert forall|j: int| 0 <= j < i - 1 implies !p(#[trigger] t[j]) by {
            assert(t[j] == s[j + 1]);
        }
        lemma_find_first(t, p, i - 1);
    }
}

/// A search over a sequence without a match finds nothing.
pub proof fn lemma_find_none<T>(s: Seq<T>, p: spec_fn(T) -> bool)
    requires
        none_match(s, p),
    ensures
        find(s, p) is None,
    decreases s.len(),
{
    if s.len() > 0 {
        assert(!p(s[0]));
        let t = s.drop_first();
        assert forall|j: int| 0 <= j < t.len() implies !p(#[trigger] t[j]) by {
            assert(t[j] == s[j + 1]);
        }
        lemma_find_none(t, p);
    }
}

/// What `find` returns, in terms of positions: the element at the first
/// matching position, or nothing when no element matches.
pub proof fn lemma_find_spec<T>(s: Seq<T>, p: spec_fn(T) -> bool)
    ensures
        find(s, p) is None <==> none_match(s, p),
        find(s, p) matches Some(x) ==> exists|i: int| is_first(s, p, i) && x == s[i],
    decreases s.len(),
{
    if s.len() > 0 {
        let t = s.drop_first();
        lemma_find_spec(t, p);
        if p(s[0]) {
            assert(is_first(s, p, 0));
        } else {
            if let Some(x) = find(t, p) {
                let i = choose|i: int| is_first(t, p, i) && x == t[i];
                assert forall|j: int| 0 <= j < i + 1 implies !p(#[trigger] s[j]) by {
                    if j > 0 {
                        assert(s[j] == t[j - 1]);
                    }
                }
                assert(is_first(s, p, i + 1));
            } else {
                assert forall|j: int| 0 <= j < s.len() implies !p(#[trigger] s[j]) by {
                    if j > 0 {
                        assert(s[j] == t[j - 1]);
                    }
                }
            }
            if !none_match(t, p) {
                let j = choose|j: int| 0 <= j < t.len() && p(t[j]);
                assert(s[j + 1] == t[j]);
            }
        }
    }
}

/// `g` places each element of `a` at an equal element of `b`, keeping their
/// order.
pub open spec fn is_embedding<T>(a: Seq<T>, b: Seq<T>, g: spec_fn(int) -> int) -> bool {
    &&& forall|i: int| 0 <= i < a.len() ==> 0 <= #[trigger] g(i) < b.len() && a[i] == b[g(i)]
    &&& forall|i: int, j: int| 0 <= i < j < a.len() ==> #[trigger] g(i) < #[trigger] g(j)
}

/// `a` is `b` with some elements left out: its elements appear in `b` in
/// the same order.
pub open spec fn is_subsequence<T>(a: Seq<T>, b: Seq<T>) -> bool {
    exists|g: spec_fn(int) -> int| is_embedding(a, b, g)
}

/// Filtering by a predicate that implies another keeps a subsequence of
/// what filtering by the other keeps, also after mapping both.
pub proof fn lemma_filter_map_subsequence<T, U>(
    s: Seq<T>,
    p: spec_fn(T) -> bool,
    q: spec_fn(T) -> bool,
    f: spec_fn(T) -> U,
)
    requires
        forall|x: T| #[trigger] p(x) ==> q(x),
    ensures
        is_subsequence(s.filter(p).map_values(f), s.filter(q).map_values(f)),
    decreases s.len(),
{
    if s.len() == 0 {
        reveal(Seq::filter);
        let g = |i: int| i;
        assert(is_embedding(s.filter(p).map_values(f), s.filter(q).map_values(f), g));
    } else {
        let t = s.drop_last();
        let x = s.last();
        assert(s =~= t.push(x));
        lemma_filter_map_subsequence(t, p, q, f);
        t.lemma_filter_push(x, p);
        t.lemma_filter_push(x, q);
        let a0 = t.filter(p).map_values(f);
        let b0 = t.filter(q).map_values(f);
        let a = s.filter(p).map_values(f);
        let b = s.filter(q).map_values(f);
        let g0 = choose|g: spec_fn(int) -> int| is_embedding(a0, b0, g);
        if p(x) {
            assert(a =~= a0.push(f(x)));
            assert(b =~= b0.push(f(x)));
            let g = |i: int| if i == a0.len() { b0.len() as int } else { g0(i) };
            assert forall|i: int, j: int| 0 <= i < j < a.len() implies #[trigger] g(i) < #[trigger] g(j) by {
                if j < a0.len() {
                    assert(g0(i) < g0(j));
                } else {
                    assert(0 <= g0(i) < b0.len());
                }
            }
            assert forall|i: int| 0 <= i < a.len() implies 0 <= #[trigger] g(i) < b.len() && a[i] == b[g(i)] by {
                if i < a0.len() {
                    assert(0 <= g0(i) < b0.len() && a0[i] == b0[g0(i)]);
                }
            }
            assert(is_embedding(a, b, g));
        } else if q(x) {
            assert(a =~= a0);
            assert(b =~= b0.push(f(x)));
            assert forall|i: int| 0 <= i < a.len() implies 0 <= #[trigger] g0(i) < b.len() && a[i] == b[g0(i)] by {
                assert(0 <= g0(i) < b0.len() && a0[i] == b0[g0(i)]);
            }
            assert(is_embedding(a, b, g0));
        } else {
            assert(a =~= a0);
            assert(b =~= b0);
            assert(is_embedding(a, b, g0));
        }
    }
}

/// The position of the first element of `items` for which `test` holds;
/// `test` computes the predicate `p`.
pub(crate) fn position<T, F: Fn(&T) -> bool>(items: &Vec<T>, test: F, Ghost(p): Ghost<spec_fn(T) -> bool>) -> (r: Option<usize>)
    requires
        forall|x: &T| #[trigger] test.requires((x,)),
        forall|x: &T, b: bool| test.ensures((x,), b) ==> b == p(*x),
    ensures
        match r {
            Some(i) => is_first(items@, p, i as int),
            None => none_match(items@, p),
        },
{
    let mut i: usize = 0;
    while i < items.len()
        invariant
            i <= items@.len(),
            forall|x: &T| #[trigger] test.requires((x,)),
            forall|x: &T, b: bool| test.ensures((x,), b) ==> b == p(*x),
            forall|j: int| 0 <= j < i ==> !p(#[trigger] items@[j]),
        decreases items.len() - i,
    {
        if test(&items[i]) {
            return Some(i);
        }
        i += 1;
    }
    None
}

} // verus!
