//! Sequences of selected indices, used by both state machines to describe the
//! trace of service calls they have requested.

use vstd::prelude::*;

verus! {

/// The indices `i` in `[0, n)` with `p(i)`, in ascending order.
pub open spec fn selected_below(n: int, p: spec_fn(int) -> bool) -> Seq<int>
    decreases n,
{
    if n <= 0 {
        Seq::empty()
    } else if p(n - 1) {
        selected_below(n - 1, p).push(n - 1)
    } else {
        selected_below(n - 1, p)
    }
}

/// Every element is smaller than every later one.
pub open spec fn strictly_increasing(s: Seq<int>) -> bool {
    forall|i: int, j: int| 0 <= i < j < s.len() ==> s[i] < s[j]
}

/// How many times `x` occurs in `s`.
pub open spec fn occurrences(s: Seq<int>, x: int) -> nat
    decreases s.len(),
{
    if s.len() == 0 {
        0
    } else {
        occurrences(s.drop_last(), x) + if s.last() == x {
            1nat
        } else {
            0nat
        }
    }
}

/// `x` occurs in `s` exactly when it occurs at least once.
pub proof fn lemma_occurrences_contains(s: Seq<int>, x: int)
    ensures
        (occurrences(s, x) >= 1) <==> s.contains(x),
    decreases s.len(),
{
    if s.len() == 0 {
    } else {
        lemma_occurrences_contains(s.drop_last(), x);
        if s.drop_last().contains(x) {
            let k = choose|k: int| 0 <= k < s.drop_last().len() && s.drop_last()[k] == x;
            assert(s[k] == x);
        }
        if s.last() == x {
            assert(s[s.len() - 1] == x);
        }
        if s.contains(x) {
            let k = choose|k: int| 0 <= k < s.len() && s[k] == x;
            if k < s.len() - 1 {
                assert(s.drop_last()[k] == x);
            }
        }
    }
}

/// Membership in `selected_below(n, p)` is exactly `0 <= j < n && p(j)`.
pub proof fn lemma_selected_below_member(n: int, p: spec_fn(int) -> bool, j: int)
    ensures
        selected_below(n, p).contains(j) <==> (0 <= j < n && p(j)),
    decreases n,
{
    if n <= 0 {
    } else {
        lemma_selected_below_member(n - 1, p, j);
        let s = selected_below(n - 1, p);
        if p(n - 1) {
            let t = s.push(n - 1);
            if s.contains(j) {
                let k = choose|k: int| 0 <= k < s.len() && s[k] == j;
                assert(t[k] == j);
            }
            if 0 <= j < n && p(j) && j == n - 1 {
                assert(t[s.len() as int] == j);
            }
            if t.contains(j) {
                let k = choose|k: int| 0 <= k < t.len() && t[k] == j;
                if k < s.len() {
                    assert(s[k] == j);
                }
            }
        }
    }
}

/// Elements of `selected_below(n, p)` are below `n` and ascend strictly.
pub proof fn lemma_selected_below_increasing(n: int, p: spec_fn(int) -> bool)
    ensures
        strictly_increasing(selected_below(n, p)),
        forall|k: int|
            0 <= k < selected_below(n, p).len() ==> #[trigger] selected_below(n, p)[k] < n,
    decreases n,
{
    if n <= 0 {
    } else {
        lemma_selected_below_increasing(n - 1, p);
        let s = selected_below(n - 1, p);
        if p(n - 1) {
            let t = s.push(n - 1);
            assert forall|i: int, j: int| 0 <= i < j < t.len() implies t[i] < t[j] by {
                if j < s.len() {
                    assert(t[i] == s[i] && t[j] == s[j]);
                } else {
                    assert(t[j] == n - 1);
                    assert(t[i] == s[i]);
                }
            }
        }
    }
}

/// Where `p` fails on all of `[a, b)`, the selection below `b` is that below `a`.
pub proof fn lemma_selected_below_skip(a: int, b: int, p: spec_fn(int) -> bool)
    requires
        0 <= a <= b,
        forall|k: int| a <= k < b ==> !#[trigger] p(k),
    ensures
        selected_below(b, p) == selected_below(a, p),
    decreases b - a,
{
    if a < b {
        lemma_selected_below_skip(a, b - 1, p);
    }
}

/// A strictly increasing sequence holds any value at most once.
pub proof fn lemma_strictly_increasing_occurrences(s: Seq<int>, x: int)
    requires
        strictly_increasing(s),
    ensures
        occurrences(s, x) <= 1,
    decreases s.len(),
{
    if s.len() == 0 {
    } else {
        let t = s.drop_last();
        assert(strictly_increasing(t)) by {
            assert forall|i: int, j: int| 0 <= i < j < t.len() implies t[i] < t[j] by {
                assert(t[i] == s[i] && t[j] == s[j]);
            }
        }
        lemma_strictly_increasing_occurrences(t, x);
        if s.last() == x && occurrences(t, x) >= 1 {
            lemma_occurrences_contains(t, x);
            let k = choose|k: int| 0 <= k < t.len() && t[k] == x;
            assert(s[k] == x && s[s.len() - 1] == x);
        }
    }
}

} // verus!
