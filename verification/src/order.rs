//! Order between sequences: one sequence occurring inside another.
//!
//! The engine's ordering guarantee is per consumer: what a consumer
//! observes is the detected items in detection order, with dropped items
//! simply absent. "In detection order" is exactly being a subsequence.

use vstd::prelude::*;

verus! {

/// `f` is an embedding of `a` into `b`: it maps each position of `a` to a
/// strictly increasing position of `b` carrying the same item.
pub open spec fn embeds<T>(f: Seq<int>, a: Seq<T>, b: Seq<T>) -> bool {
    &&& f.len() == a.len()
    &&& forall|i: int| 0 <= i < f.len() ==> 0 <= #[trigger] f[i] < b.len() && b[f[i]] == a[i]
    &&& forall|i: int, j: int| 0 <= i < j < f.len() ==> f[i] < f[j]
}

/// The items of `a` all appear in `b`, in the same relative order, not
/// necessarily adjacently.
pub open spec fn subsequence_of<T>(a: Seq<T>, b: Seq<T>) -> bool {
    exists|f: Seq<int>| embeds(f, a, b)
}

/// Every sequence is a subsequence of itself.
pub proof fn lemma_subsequence_refl<T>(a: Seq<T>)
    ensures
        subsequence_of(a, a),
{
    let f = Seq::new(a.len(), |i: int| i);
    assert(embeds(f, a, a));
}

/// Appending the same item to both sides keeps the subsequence relation.
pub proof fn lemma_subsequence_push_both<T>(a: Seq<T>, b: Seq<T>, x: T)
    requires
        subsequence_of(a, b),
    ensures
        subsequence_of(a.push(x), b.push(x)),
{
    let f = choose|f: Seq<int>| embeds(f, a, b);
    let g = f.push(b.len() as int);
    assert forall|i: int| 0 <= i < g.len() implies 0 <= #[trigger] g[i] < b.push(x).len() && b.push(
        x,
    )[g[i]] == a.push(x)[i] by {
        if i < f.len() {
            assert(g[i] == f[i]);
            assert(b.push(x)[f[i]] == b[f[i]]);
        }
    }
    assert(embeds(g, a.push(x), b.push(x)));
}

/// Growing the containing sequence keeps the subsequence relation.
pub proof fn lemma_subsequence_grow<T>(a: Seq<T>, b: Seq<T>, x: T)
    requires
        subsequence_of(a, b),
    ensures
        subsequence_of(a, b.push(x)),
{
    let f = choose|f: Seq<int>| embeds(f, a, b);
    assert forall|i: int| 0 <= i < f.len() implies 0 <= #[trigger] f[i] < b.push(x).len() && b.push(
        x,
    )[f[i]] == a[i] by {
        assert(b.push(x)[f[i]] == b[f[i]]);
    }
    assert(embeds(f, a, b.push(x)));
}

/// A front part of a subsequence is itself a subsequence.
pub proof fn lemma_subsequence_front<T>(a: Seq<T>, c: Seq<T>, b: Seq<T>)
    requires
        subsequence_of(a + c, b),
    ensures
        subsequence_of(a, b),
{
    let f = choose|f: Seq<int>| embeds(f, a + c, b);
    let g = f.take(a.len() as int);
    assert forall|i: int| 0 <= i < g.len() implies 0 <= #[trigger] g[i] < b.len() && b[g[i]]
        == a[i] by {
        assert(g[i] == f[i]);
        assert((a + c)[i] == a[i]);
    }
    assert(embeds(g, a, b));
}

} // verus!
