//! The first element of a sequence that meets a condition.

use vstd::prelude::*;

verus! {

/// `i` is the least index of `s` at which `p` holds.
pub open spec fn is_first_where<T>(s: Seq<T>, p: spec_fn(T) -> bool, i: int) -> bool {
    &&& 0 <= i < s.len()
    &&& p(s[i])
    &&& forall|j: int| 0 <= j < i ==> !p(#[trigger] s[j])
}

/// Whether `p` holds of some element of `s`.
pub open spec fn any_where<T>(s: Seq<T>, p: spec_fn(T) -> bool) -> bool {
    exists|i: int| 0 <= i < s.len() && p(#[trigger] s[i])
}

/// The least index of `s` at which `p` holds, if it holds anywhere.
pub open spec fn first_where<T>(s: Seq<T>, p: spec_fn(T) -> bool) -> Option<int> {
    if any_where(s, p) {
        Some(choose|i: int| is_first_where(s, p, i))
    } else {
        None
    }
}

/// The first element of `s` of which `p` holds, if there is one.
pub open spec fn first_match<T>(s: Seq<T>, p: spec_fn(T) -> bool) -> Option<T> {
    match first_where(s, p) {
        Some(i) => Some(s[i]),
        None => None,
    }
}

/// A least index, once found, is what `first_where` gives.
pub proof fn lemma_first_where_found<T>(s: Seq<T>, p: spec_fn(T) -> bool, i: int)
    requires
        is_first_where(s, p, i),
    ensures
        any_where(s, p),
        first_where(s, p) == Some(i),
        first_match(s, p) == Some(s[i]),
{
    let k = choose|k: int| is_first_where(s, p, k);
    assert(!(k < i) && !(i < k));
}

/// Where `p` holds nowhere, `first_where` gives nothing.
pub proof fn lemma_first_where_absent<T>(s: Seq<T>, p: spec_fn(T) -> bool)
    requires
        forall|j: int| 0 <= j < s.len() ==> !p(#[trigger] s[j]),
    ensures
        !any_where(s, p),
        first_where(s, p).is_none(),
        first_match(s, p).is_none(),
{
}

/// What `first_where` gives is a least index, and it gives one wherever `p`
/// holds of some element.
pub proof fn lemma_first_where_is_least<T>(s: Seq<T>, p: spec_fn(T) -> bool)
    ensures
        match first_where(s, p) {
            Some(i) => is_first_where(s, p, i),
            None => forall|j: int| 0 <= j < s.len() ==> !p(#[trigger] s[j]),
        },
{
    if any_where(s, p) {
        let w = choose|i: int| 0 <= i < s.len() && p(#[trigger] s[i]);
        lemma_least_exists(s, p, w);
    }
}

/// Filtering a sequence with one more element at its end: the element is
/// kept at the end of what was kept before, or left out.
pub proof fn lemma_filter_push<T>(s: Seq<T>, x: T, p: spec_fn(T) -> bool)
    ensures
        s.push(x).filter(p) == if p(x) {
            s.filter(p).push(x)
        } else {
            s.filter(p)
        },
{
    reveal(Seq::filter);
    assert(s.push(x).drop_last() =~= s);
}

/// Below any index at which `p` holds there is a least one.
proof fn lemma_least_exists<T>(s: Seq<T>, p: spec_fn(T) -> bool, w: int)
    requires
        0 <= w < s.len(),
        p(s[w]),
    ensures
        exists|i: int| is_first_where(s, p, i),
    decreases w,
{
    if forall|j: int| 0 <= j < w ==> !p(#[trigger] s[j]) {
        assert(is_first_where(s, p, w));
    } else {
        let j = choose|j: int| 0 <= j < w && p(#[trigger] s[j]);
        lemma_least_exists(s, p, j);
    }
}

} // verus!
