//! How often a command occurs, where it first occurs, and the ranking that
//! follows from the two.

use vstd::prelude::*;

verus! {

/// How often `t` occurs in `s`.
pub open spec fn occurrences<T>(s: Seq<T>, t: T) -> nat
    decreases s.len(),
{
    if s.len() == 0 {
        0
    } else if s.last() == t {
        occurrences(s.drop_last(), t) + 1
    } else {
        occurrences(s.drop_last(), t)
    }
}

/// The first position of `s` that holds `t`; the length of `s` where none does.
pub open spec fn first_position<T>(s: Seq<T>, t: T) -> int
    decreases s.len(),
{
    if s.len() == 0 {
        0
    } else {
        let before = first_position(s.drop_last(), t);
        if before < s.len() - 1 {
            before
        } else if s.last() == t {
            s.len() - 1
        } else {
            s.len() as int
        }
    }
}

/// Whether `a` stands before `b` in the ranking of `s`: it occurs more often,
/// or as often and earlier.
pub open spec fn ranks_before<T>(s: Seq<T>, a: T, b: T) -> bool {
    occurrences(s, a) > occurrences(s, b) || (occurrences(s, a) == occurrences(s, b)
        && first_position(s, a) < first_position(s, b))
}

/// Whether `r` holds an entry for `t`.
pub open spec fn has_entry<T>(r: Seq<(T, nat)>, t: T) -> bool {
    exists|i: int| 0 <= i < r.len() && (#[trigger] r[i]).0 == t
}

/// Whether `r` is the ranking of `s`: each value that occurs in `s` once, with
/// the number of its occurrences, the most frequent first, and the one that
/// occurs first in `s` before the others of its frequency.
pub open spec fn is_ranking<T>(s: Seq<T>, r: Seq<(T, nat)>) -> bool {
    &&& forall|i: int|
        0 <= i < r.len() ==> s.contains((#[trigger] r[i]).0) && r[i].1 == occurrences(s, r[i].0)
    &&& forall|j: int| 0 <= j < s.len() ==> has_entry(r, #[trigger] s[j])
    &&& forall|i: int, j: int|
        0 <= i < j < r.len() ==> ranks_before(s, (#[trigger] r[i]).0, (#[trigger] r[j]).0)
}

/// The first `limit` entries of `r`, or all of them where there are fewer.
pub open spec fn first_entries<T>(r: Seq<(T, nat)>, limit: nat) -> Seq<(T, nat)> {
    if r.len() < limit {
        r
    } else {
        r.take(limit as int)
    }
}

/// Whether `top` holds the first `limit` entries of the ranking of `s`, or
/// all of them where there are fewer.
pub open spec fn is_top_ranking<T>(s: Seq<T>, top: Seq<(T, nat)>, limit: nat) -> bool {
    exists|r: Seq<(T, nat)>| #[trigger] is_ranking(s, r) && first_entries(r, limit) == top
}

/// Whether `t` leads the ranking of `s`: it occurs in `s`, and stands before
/// every other value that does.
pub open spec fn is_most_frequent<T>(s: Seq<T>, t: T) -> bool {
    &&& s.contains(t)
    &&& forall|j: int| 0 <= j < s.len() && #[trigger] s[j] != t ==> ranks_before(s, t, s[j])
}

/// Among the first `n` positions of `s`, the first one whose value occurs in
/// `s` as often as any of theirs.
pub open spec fn leader<T>(s: Seq<T>, n: nat) -> int
    decreases n,
{
    if n <= 1 {
        0
    } else {
        let before = leader(s, (n - 1) as nat);
        if occurrences(s, s[n - 1]) > occurrences(s, s[before]) {
            n - 1
        } else {
            before
        }
    }
}

/// The value that leads the ranking of `s`; none where `s` is empty.
pub open spec fn most_frequent<T>(s: Seq<T>) -> Option<T> {
    if s.len() == 0 {
        None
    } else {
        Some(s[leader(s, s.len())])
    }
}

/// No value occurs more often than the sequence is long.
pub proof fn lemma_occurrences_bound<T>(s: Seq<T>, t: T)
    ensures
        occurrences(s, t) <= s.len(),
    decreases s.len(),
{
    if s.len() > 0 {
        lemma_occurrences_bound(s.drop_last(), t);
    }
}

/// A value occurs in a sequence just when the number of its occurrences is
/// not zero.
pub proof fn lemma_occurrences_contains<T>(s: Seq<T>, t: T)
    ensures
        occurrences(s, t) > 0 <==> s.contains(t),
    decreases s.len(),
{
    if s.len() > 0 {
        lemma_occurrences_contains(s.drop_last(), t);
        if s.contains(t) {
            let k = choose|k: int| 0 <= k < s.len() && s[k] == t;
            if k < s.len() - 1 {
                assert(s.drop_last()[k] == t);
            }
        }
    }
}

/// What the first position of a value is: no position before it holds the
/// value, and it does, unless the value does not occur.
pub proof fn lemma_first_position<T>(s: Seq<T>, t: T)
    ensures
        0 <= first_position(s, t) <= s.len(),
        forall|j: int| 0 <= j < first_position(s, t) ==> s[j] != t,
        first_position(s, t) < s.len() ==> s[first_position(s, t)] == t,
        first_position(s, t) < s.len() <==> s.contains(t),
    decreases s.len(),
{
    if s.len() > 0 {
        lemma_first_position(s.drop_last(), t);
        let p = first_position(s, t);
        assert forall|j: int| 0 <= j < p implies s[j] != t by {
            if j < s.len() - 1 {
                assert(s.drop_last()[j] == s[j]);
            }
        }
    }
}

/// The first position of a value is the one position that holds it while no
/// earlier one does.
pub proof fn lemma_first_position_is<T>(s: Seq<T>, t: T, p: int)
    requires
        0 <= p < s.len(),
        s[p] == t,
        forall|j: int| 0 <= j < p ==> s[j] != t,
    ensures
        first_position(s, t) == p,
{
    lemma_first_position(s, t);
}

/// Two values with one first position in a sequence that holds them are one
/// value.
pub proof fn lemma_first_position_distinct<T>(s: Seq<T>, a: T, b: T)
    requires
        s.contains(a),
        first_position(s, a) == first_position(s, b),
    ensures
        a == b,
{
    lemma_first_position(s, a);
    lemma_first_position(s, b);
}

/// Of two different values that occur, one stands before the other in the
/// ranking, and never both.
pub proof fn lemma_ranks_before_total<T>(s: Seq<T>, a: T, b: T)
    requires
        s.contains(a),
        s.contains(b),
        a != b,
    ensures
        ranks_before(s, a, b) != ranks_before(s, b, a),
{
    if first_position(s, a) == first_position(s, b) {
        lemma_first_position_distinct(s, a, b);
    }
}

/// Two rankings of one sequence agree on their first `n` entries, and the
/// second is no shorter than that.
proof fn lemma_rankings_agree<T>(s: Seq<T>, r1: Seq<(T, nat)>, r2: Seq<(T, nat)>, n: nat)
    requires
        is_ranking(s, r1),
        is_ranking(s, r2),
        n <= r1.len(),
    ensures
        n <= r2.len(),
        forall|i: int| 0 <= i < n ==> r1[i] == r2[i],
    decreases n,
{
    if n > 0 {
        let k = (n - 1) as int;
        lemma_rankings_agree(s, r1, r2, k as nat);
        assert(s.contains(r1[k].0));
    }
}

/// A sequence has one ranking.
pub proof fn lemma_ranking_unique<T>(s: Seq<T>, r1: Seq<(T, nat)>, r2: Seq<(T, nat)>)
    requires
        is_ranking(s, r1),
        is_ranking(s, r2),
    ensures
        r1 == r2,
{
    lemma_rankings_agree(s, r1, r2, r1.len());
    lemma_rankings_agree(s, r2, r1, r2.len());
}

/// A sequence has one list of its `limit` leading entries.
pub proof fn lemma_top_ranking_unique<T>(
    s: Seq<T>,
    left: Seq<(T, nat)>,
    right: Seq<(T, nat)>,
    limit: nat,
)
    requires
        is_top_ranking(s, left, limit),
        is_top_ranking(s, right, limit),
    ensures
        left == right,
{
    let r1 = choose|r: Seq<(T, nat)>| #[trigger] is_ranking(s, r) && first_entries(r, limit) == left;
    let r2 = choose|r: Seq<(T, nat)>| #[trigger] is_ranking(s, r) && first_entries(r, limit) == right;
    lemma_ranking_unique(s, r1, r2);
}

/// The ranking of a sequence is empty just when the sequence is, and its
/// first entry holds the value that leads it.
pub proof fn lemma_ranking_leads<T>(s: Seq<T>, r: Seq<(T, nat)>)
    requires
        is_ranking(s, r),
    ensures
        r.len() == 0 <==> s.len() == 0,
        r.len() > 0 ==> is_most_frequent(s, r[0].0),
{
    if s.len() > 0 {
        assert(has_entry(r, s[0]));
    }
    if r.len() > 0 {
        assert(s.contains(r[0].0));
    }
}

/// One value at most leads the ranking of a sequence.
pub proof fn lemma_most_frequent_unique<T>(s: Seq<T>, a: T, b: T)
    requires
        is_most_frequent(s, a),
        is_most_frequent(s, b),
    ensures
        a == b,
{
}

/// What [`leader`] finds among the first `n` positions: none of them holds a
/// value that occurs more often, and none before it one that occurs as often.
proof fn lemma_leader<T>(s: Seq<T>, n: nat)
    requires
        1 <= n <= s.len(),
    ensures
        0 <= leader(s, n) < n,
        forall|j: int|
            0 <= j < n ==> occurrences(s, #[trigger] s[j]) <= occurrences(s, s[leader(s, n)]),
        forall|j: int|
            0 <= j < leader(s, n) ==> occurrences(s, #[trigger] s[j]) < occurrences(
                s,
                s[leader(s, n)],
            ),
    decreases n,
{
    if n > 1 {
        lemma_leader(s, (n - 1) as nat);
    }
}

/// The value that [`most_frequent`] names leads the ranking, and a sequence
/// that is not empty has one.
pub proof fn lemma_most_frequent<T>(s: Seq<T>)
    ensures
        most_frequent(s) is Some <==> s.len() > 0,
        most_frequent(s) is Some ==> is_most_frequent(s, most_frequent(s)->0),
{
    if s.len() > 0 {
        let p = leader(s, s.len());
        lemma_leader(s, s.len());
        let top = s[p];
        lemma_first_position_is(s, top, p);
        assert forall|j: int| 0 <= j < s.len() && #[trigger] s[j] != top implies ranks_before(
            s,
            top,
            s[j],
        ) by {
            lemma_first_position(s, s[j]);
        }
    }
}

/// Values that stand at the same positions of two sequences occur equally
/// often in them.
pub proof fn lemma_occurrences_matching<A, B>(a: Seq<A>, x: A, b: Seq<B>, y: B)
    requires
        a.len() == b.len(),
        forall|j: int| 0 <= j < a.len() ==> (a[j] == x <==> b[j] == y),
    ensures
        occurrences(a, x) == occurrences(b, y),
    decreases a.len(),
{
    if a.len() > 0 {
        lemma_occurrences_matching(a.drop_last(), x, b.drop_last(), y);
    }
}

/// The top of a ranking holds no more entries than asked for, none for an
/// empty sequence, and else the value that leads the ranking first.
pub proof fn lemma_top_ranking_shape<T>(s: Seq<T>, top: Seq<(T, nat)>, limit: nat)
    requires
        is_top_ranking(s, top, limit),
    ensures
        top.len() <= limit,
        s.len() == 0 ==> top.len() == 0,
        s.len() > 0 && limit > 0 ==> top.len() > 0 && is_most_frequent(s, top[0].0),
{
    let r = choose|r: Seq<(T, nat)>| #[trigger] is_ranking(s, r) && first_entries(r, limit) == top;
    lemma_ranking_leads(s, r);
}

} // verus!
