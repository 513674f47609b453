use vstd::prelude::*;

verus! {

/// How many elements of `s` satisfy `p`.
///
/// The bookkeeping invariants of this crate are statements about how often
/// a task appears in a holder list, or a lock id in a task's held list;
/// this counter is the common vocabulary for all of them.
pub open spec fn count_matching<A>(s: Seq<A>, p: spec_fn(A) -> bool) -> nat
    decreases s.len(),
{
    if s.len() == 0 {
        0
    } else {
        count_matching(s.drop_last(), p) + (if p(s.last()) {
            1nat
        } else {
            0nat
        })
    }
}

/// Appending an element raises the count by one exactly when the element
/// matches.
pub proof fn lemma_count_push<A>(s: Seq<A>, p: spec_fn(A) -> bool, x: A)
    ensures
        count_matching(s.push(x), p) == count_matching(s, p) + (if p(x) {
            1nat
        } else {
            0nat
        }),
{
    assert(s.push(x).drop_last() =~= s);
}

/// Removing the element at `i` lowers the count by one exactly when that
/// element matches.
pub proof fn lemma_count_remove<A>(s: Seq<A>, p: spec_fn(A) -> bool, i: int)
    requires
        0 <= i < s.len(),
    ensures
        count_matching(s, p) == count_matching(s.remove(i), p) + (if p(s[i]) {
            1nat
        } else {
            0nat
        }),
    decreases s.len(),
{
    if i == s.len() - 1 {
        assert(s.remove(i) =~= s.drop_last());
    } else {
        assert(s.remove(i).drop_last() =~= s.drop_last().remove(i));
        assert(s.remove(i).last() == s.last());
        lemma_count_remove(s.drop_last(), p, i);
    }
}

/// `s` with its first element satisfying `p` removed; `s` itself when no
/// element matches.
pub open spec fn remove_first_matching<A>(s: Seq<A>, p: spec_fn(A) -> bool) -> Seq<A>
    decreases s.len(),
{
    if s.len() == 0 {
        s
    } else if p(s.first()) {
        s.drop_first()
    } else {
        seq![s.first()] + remove_first_matching(s.drop_first(), p)
    }
}

/// Removing the first match is removing at the first matching index.
pub proof fn lemma_remove_first_is_remove_at<A>(s: Seq<A>, p: spec_fn(A) -> bool, i: int)
    requires
        0 <= i < s.len(),
        p(s[i]),
        forall|j: int| 0 <= j < i ==> !p(s[j]),
    ensures
        remove_first_matching(s, p) == s.remove(i),
    decreases s.len(),
{
    if i == 0 {
        assert(remove_first_matching(s, p) =~= s.remove(0));
    } else {
        lemma_remove_first_is_remove_at(s.drop_first(), p, i - 1);
        assert(seq![s.first()] + s.drop_first().remove(i - 1) =~= s.remove(i));
    }
}

/// The count is positive exactly when some element matches.
pub proof fn lemma_count_positive<A>(s: Seq<A>, p: spec_fn(A) -> bool)
    ensures
        count_matching(s, p) > 0 <==> exists|i: int| 0 <= i < s.len() && p(s[i]),
    decreases s.len(),
{
    if s.len() > 0 {
        lemma_count_positive(s.drop_last(), p);
        if p(s.last()) {
            assert(p(s[s.len() - 1]));
        } else {
            if exists|i: int| 0 <= i < s.len() && p(s[i]) {
                let i = choose|i: int| 0 <= i < s.len() && p(s[i]);
                assert(i < s.len() - 1);
                assert(s.drop_last()[i] == s[i]);
            }
        }
    }
}

} // verus!
