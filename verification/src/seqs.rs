//! Searching a sequence for the first element with a property.

use vstd::prelude::*;

verus! {

/// Index of the first element of `s` that satisfies `p`, or the length of
/// `s` when none does.
pub open spec fn first_where<T>(s: Seq<T>, p: spec_fn(T) -> bool) -> int
    decreases s.len(),
{
    if s.len() == 0 {
        0
    } else if p(s[0]) {
        0
    } else {
        1 + first_where(s.skip(1), p)
    }
}

/// Whether some element of `s` satisfies `p`.
pub open spec fn any_where<T>(s: Seq<T>, p: spec_fn(T) -> bool) -> bool {
    first_where(s, p) < s.len()
}

/// `first_where` is the one position that satisfies `p` with none before
/// it, or the length when no element satisfies `p`.
pub proof fn lemma_first_where<T>(s: Seq<T>, p: spec_fn(T) -> bool)
    ensures
        0 <= first_where(s, p) <= s.len(),
        first_where(s, p) < s.len() ==> p(s[first_where(s, p)]),
        forall|j: int| 0 <= j < first_where(s, p) ==> !p(#[trigger] s[j]),
    decreases s.len(),
{
    if s.len() > 0 && !p(s[0]) {
        lemma_first_where(s.skip(1), p);
        assert forall|j: int| 0 <= j < first_where(s, p) implies !p(#[trigger] s[j]) by {
            if j > 0 {
                assert(s.skip(1)[j - 1] == s[j]);
            }
        }
    }
}

/// A position that satisfies `p` with none before it is the first.
pub proof fn lemma_first_where_unique<T>(s: Seq<T>, p: spec_fn(T) -> bool, i: int)
    requires
        0 <= i <= s.len(),
        i < s.len() ==> p(s[i]),
        forall|j: int| 0 <= j < i ==> !p(#[trigger] s[j]),
    ensures
        first_where(s, p) == i,
{
    lemma_first_where(s, p);
    let k = first_where(s, p);
    if k < i {
        assert(!p(s[k]));
    }
}

/// An element satisfies `p` exactly when `any_where` says so.
pub proof fn lemma_any_where<T>(s: Seq<T>, p: spec_fn(T) -> bool)
    ensures
        any_where(s, p) <==> exists|j: int| 0 <= j < s.len() && p(#[trigger] s[j]),
{
    lemma_first_where(s, p);
    if any_where(s, p) {
        assert(p(s[first_where(s, p)]));
    }
}

/// Where the elements of a filtered sequence come from: the positions in
/// `s` of the elements that satisfy `p`, in ascending order. The filtered
/// sequence holds exactly the elements at these positions.
pub proof fn lemma_filter_sources<T>(s: Seq<T>, p: spec_fn(T) -> bool) -> (src: Seq<int>)
    ensures
        src.len() == s.filter(p).len(),
        forall|k: int|
            0 <= k < src.len() ==> 0 <= #[trigger] src[k] < s.len() && s.filter(p)[k] == s[src[k]]
                && p(s[src[k]]),
        forall|a: int, b: int| 0 <= a < b < src.len() ==> #[trigger] src[a] < #[trigger] src[b],
        forall|i: int|
            0 <= i < s.len() && p(#[trigger] s[i]) ==> exists|k: int|
                0 <= k < src.len() && #[trigger] src[k] == i,
    decreases s.len(),
{
    reveal(Seq::filter);
    if s.len() == 0 {
        Seq::empty()
    } else {
        let rest = s.drop_last();
        let inner = lemma_filter_sources(rest, p);
        let src = if p(s.last()) {
            inner.push(s.len() - 1)
        } else {
            inner
        };
        assert forall|k: int| 0 <= k < src.len() implies 0 <= #[trigger] src[k] < s.len()
            && s.filter(p)[k] == s[src[k]] && p(s[src[k]]) by {
            if k < inner.len() {
                assert(rest[inner[k]] == s[inner[k]]);
            }
        }
        assert forall|i: int| 0 <= i < s.len() && p(#[trigger] s[i]) implies exists|k: int|
            0 <= k < src.len() && #[trigger] src[k] == i by {
            if i < s.len() - 1 {
                assert(rest[i] == s[i]);
                let k = choose|k: int| 0 <= k < inner.len() && #[trigger] inner[k] == i;
                assert(src[k] == i);
            } else {
                assert(src[src.len() - 1] == i);
            }
        }
        src
    }
}

/// Two sequences of one length whose elements satisfy `p` at the same
/// positions have the same first such position.
pub proof fn lemma_first_where_same<T>(a: Seq<T>, b: Seq<T>, p: spec_fn(T) -> bool)
    requires
        a.len() == b.len(),
        forall|i: int| 0 <= i < a.len() ==> p(#[trigger] a[i]) == p(b[i]),
    ensures
        first_where(a, p) == first_where(b, p),
{
    lemma_first_where(a, p);
    let k = first_where(a, p);
    assert forall|j: int| 0 <= j < k implies !p(#[trigger] b[j]) by {
        assert(!p(a[j]));
    }
    if k < a.len() {
        assert(p(a[k]));
    }
    lemma_first_where_unique(b, p, k);
}

/// The first position that satisfies `p` after one more element has been
/// added at the end.
pub proof fn lemma_first_where_push<T>(s: Seq<T>, x: T, p: spec_fn(T) -> bool)
    ensures
        first_where(s.push(x), p) == if first_where(s, p) < s.len() {
            first_where(s, p)
        } else if p(x) {
            s.len() as int
        } else {
            s.len() as int + 1
        },
{
    lemma_first_where(s, p);
    let k = first_where(s, p);
    let t = s.push(x);
    let want = if k < s.len() {
        k
    } else if p(x) {
        s.len() as int
    } else {
        s.len() as int + 1
    };
    assert forall|j: int| 0 <= j < want implies !p(#[trigger] t[j]) by {
        if j < s.len() {
            assert(t[j] == s[j]);
            assert(!p(s[j]));
        }
    }
    if want < t.len() {
        if k < s.len() {
            assert(t[k] == s[k]);
        }
    }
    lemma_first_where_unique(t, p, want);
}

/// The number of elements that satisfy `p` is zero exactly when none does.
pub proof fn lemma_filter_none<T>(s: Seq<T>, p: spec_fn(T) -> bool)
    ensures
        s.filter(p).len() == 0 <==> forall|i: int| 0 <= i < s.len() ==> !p(#[trigger] s[i]),
{
    let src = lemma_filter_sources(s, p);
    if s.filter(p).len() > 0 {
        assert(p(s[src[0]]));
    }
    if exists|i: int| 0 <= i < s.len() && p(#[trigger] s[i]) {
        let i = choose|i: int| 0 <= i < s.len() && p(#[trigger] s[i]);
        let k = choose|k: int| 0 <= k < src.len() && #[trigger] src[k] == i;
    }
}

} // verus!
