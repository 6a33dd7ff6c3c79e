use vstd::prelude::*;

verus! {

broadcast use vstd::seq_lib::group_to_multiset_ensures;

/// `lt` is a strict order: never both ways, and transitive.
pub open spec fn strict_order<A>(lt: spec_fn(A, A) -> bool) -> bool {
    &&& forall|a: A, b: A| #[trigger] lt(a, b) ==> !lt(b, a)
    &&& forall|a: A, b: A, c: A| #[trigger] lt(a, b) && #[trigger] lt(b, c) ==> lt(a, c)
}

/// No item of `s` should come strictly before one that precedes it.
pub open spec fn ordered_by<A>(s: Seq<A>, lt: spec_fn(A, A) -> bool) -> bool {
    forall|i: int, j: int| 0 <= i < j < s.len() ==> !lt(#[trigger] s[j], #[trigger] s[i])
}

/// The first place at or after `k` whose item `x` should come before, or
/// the length of `s`.
pub open spec fn insert_pos<A>(s: Seq<A>, x: A, lt: spec_fn(A, A) -> bool, k: int) -> int
    decreases s.len() - k,
{
    if k >= s.len() {
        s.len() as int
    } else if lt(x, s[k]) {
        k
    } else {
        insert_pos(s, x, lt, k + 1)
    }
}

/// `s` with `x` inserted after every item that it should not come before.
pub open spec fn insert_ordered<A>(s: Seq<A>, x: A, lt: spec_fn(A, A) -> bool) -> Seq<A> {
    s.insert(insert_pos(s, x, lt, 0), x)
}

/// `s` sorted by insertion, item after item: items that neither comes
/// before the other keep the order they had.
pub open spec fn sort_by<A>(s: Seq<A>, lt: spec_fn(A, A) -> bool) -> Seq<A>
    decreases s.len(),
{
    if s.len() == 0 {
        s
    } else {
        insert_ordered(sort_by(s.drop_last(), lt), s.last(), lt)
    }
}

proof fn lemma_insert_pos<A>(s: Seq<A>, x: A, lt: spec_fn(A, A) -> bool, k: int)
    requires
        0 <= k <= s.len(),
    ensures
        k <= insert_pos(s, x, lt, k) <= s.len(),
        forall|m: int| k <= m < insert_pos(s, x, lt, k) ==> !lt(x, #[trigger] s[m]),
        insert_pos(s, x, lt, k) < s.len() ==> lt(x, s[insert_pos(s, x, lt, k)]),
    decreases s.len() - k,
{
    if k < s.len() && !lt(x, s[k]) {
        lemma_insert_pos(s, x, lt, k + 1);
    }
}

proof fn lemma_insert_ordered<A>(s: Seq<A>, x: A, lt: spec_fn(A, A) -> bool)
    requires
        strict_order(lt),
        ordered_by(s, lt),
    ensures
        ordered_by(insert_ordered(s, x, lt), lt),
{
    lemma_insert_pos(s, x, lt, 0);
    let p = insert_pos(s, x, lt, 0);
    let t = insert_ordered(s, x, lt);
    assert forall|i: int, j: int| 0 <= i < j < t.len() implies !lt(#[trigger] t[j], #[trigger] t[i]) by {
        if j < p {
            assert(t[i] == s[i] && t[j] == s[j]);
        } else if j == p {
            assert(t[i] == s[i] && t[j] == x);
        } else if i < p {
            assert(t[i] == s[i] && t[j] == s[j - 1]);
            assert(!lt(s[j - 1], s[p]) || j - 1 == p);
            if lt(s[j - 1], s[i]) {
                if j - 1 == p {
                    assert(lt(x, s[p]));
                } else {
                    assert(lt(x, s[p]));
                }
            }
        } else if i == p {
            assert(t[i] == x && t[j] == s[j - 1]);
            assert(lt(x, s[p]));
            if j - 1 > p {
                assert(!lt(s[j - 1], s[p]));
                if lt(s[j - 1], x) {
                    assert(lt(s[j - 1], s[p]));
                }
            }
        } else {
            assert(t[i] == s[i - 1] && t[j] == s[j - 1]);
        }
    }
}

/// Sorting by insertion puts the items in order.
pub proof fn lemma_sort_by_ordered<A>(s: Seq<A>, lt: spec_fn(A, A) -> bool)
    requires
        strict_order(lt),
    ensures
        ordered_by(sort_by(s, lt), lt),
    decreases s.len(),
{
    if s.len() > 0 {
        lemma_sort_by_ordered(s.drop_last(), lt);
        lemma_insert_ordered(sort_by(s.drop_last(), lt), s.last(), lt);
    }
}

/// Sorting by insertion keeps every item, as often as it was there.
pub proof fn lemma_sort_by_permutes<A>(s: Seq<A>, lt: spec_fn(A, A) -> bool)
    ensures
        sort_by(s, lt).to_multiset() == s.to_multiset(),
        sort_by(s, lt).len() == s.len(),
    decreases s.len(),
{
    if s.len() > 0 {
        let prev = sort_by(s.drop_last(), lt);
        lemma_sort_by_permutes(s.drop_last(), lt);
        lemma_insert_pos(prev, s.last(), lt, 0);
        vstd::seq_lib::to_multiset_insert(prev, insert_pos(prev, s.last(), lt, 0), s.last());
        vstd::seq_lib::to_multiset_build(s.drop_last(), s.last());
        assert(s.drop_last().push(s.last()) =~= s);
    }
}

} // verus!
