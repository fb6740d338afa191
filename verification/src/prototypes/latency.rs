//! Tries how long it takes from a shortcut to the first frame of an overlay.
//!
//! Times are counted in nanoseconds.

use vstd::prelude::*;

verus! {

/// One frame at sixty frames per second.
pub const FRAME: u64 = 16_000_000;

/// The longest that the user does not notice.
pub const BUDGET: u64 = 50_000_000;

/// What a measurement shows.
#[derive(Debug, Clone, Copy, PartialEq, Eq, Structural)]
pub enum Verdict {
    /// Less than one frame.
    WithinFrame,
    WithinBudget,
    TooSlow,
}

/// The numbers do not get smaller.
pub open spec fn ascending(s: Seq<u64>) -> bool {
    forall|i: int, j: int| 0 <= i < j < s.len() ==> s[i] <= s[j]
}

/// `sorted` holds the numbers of `s`, in ascending order.
pub open spec fn is_sorted_form(s: Seq<u64>, sorted: Seq<u64>) -> bool {
    ascending(sorted) && sorted.to_multiset() == s.to_multiset()
}

/// The smallest number, the one in the middle and the largest one.
pub open spec fn summary(sorted: Seq<u64>) -> (u64, u64, u64) {
    (sorted[0], sorted[sorted.len() as int / 2], sorted[sorted.len() - 1])
}

/// Puts the numbers in ascending order.
fn sort(v: &mut Vec<u64>)
    ensures
        is_sorted_form(old(v)@, final(v)@),
        final(v)@.len() == old(v)@.len(),
{
    let mut i: usize = 0;
    while i < v.len()
        invariant
            i <= v@.len(),
            v@.len() == old(v)@.len(),
            v@.to_multiset() == old(v)@.to_multiset(),
            ascending(v@.take(i as int)),
        decreases v@.len() - i,
    {
        sift(v, i);
        i = i + 1;
    }
    proof {
        assert(v@.take(i as int) =~= v@);
    }
}

/// Moves the number at `end` down to its place among the sorted ones before it.
fn sift(v: &mut Vec<u64>, end: usize)
    requires
        end < old(v)@.len(),
        ascending(old(v)@.take(end as int)),
    ensures
        final(v)@.len() == old(v)@.len(),
        final(v)@.to_multiset() == old(v)@.to_multiset(),
        ascending(final(v)@.take(end + 1)),
{
    let mut j: usize = end;
    proof {
        assert forall|a: int, b: int| 0 <= a < b <= end && b != j implies v@[a] <= v@[b] by {
            assert(v@.take(end as int)[a] <= v@.take(end as int)[b]);
        }
    }
    while j > 0 && v[j - 1] > v[j]
        invariant
            j <= end < v@.len(),
            v@.len() == old(v)@.len(),
            v@.to_multiset() == old(v)@.to_multiset(),
            forall|a: int, b: int| 0 <= a < b <= end && b != j ==> v@[a] <= v@[b],
        decreases j,
    {
        let ghost before = v@;
        let x: u64 = v[j - 1];
        let y: u64 = v[j];
        v.set(j - 1, y);
        v.set(j, x);
        proof {
            lemma_swap_keeps_multiset(before, j - 1, j as int);
            assert(v@ =~= before.update(j - 1, before[j as int]).update(
                j as int,
                before[j - 1],
            ));
        }
        j = j - 1;
    }
    proof {
        let sorted = v@.take(end + 1);
        assert forall|a: int, b: int| 0 <= a < b < sorted.len() implies sorted[a] <= sorted[b] by {
            if b == j {
                assert(j > 0);
                if a < j - 1 {
                    assert(v@[a] <= v@[j - 1]);
                }
            } else {
                assert(v@[a] <= v@[b]);
            }
        }
    }
}

proof fn lemma_swap_keeps_multiset(s: Seq<u64>, i: int, j: int)
    requires
        0 <= i < j < s.len(),
    ensures
        s.update(i, s[j]).update(j, s[i]).to_multiset() == s.to_multiset(),
{
    broadcast use vstd::seq_lib::group_to_multiset_ensures;

    let once = s.update(i, s[j]);
    vstd::seq_lib::to_multiset_update(s, i, s[j]);
    vstd::seq_lib::to_multiset_update(once, j, s[i]);
    assert(once[j] == s[j]);
    assert(s.to_multiset().count(s[i]) > 0) by {
        assert(s.contains(s[i]));
    }
    assert(once.update(j, s[i]).to_multiset() =~= s.to_multiset());
}

/// The smallest time, the one in the middle and the largest one.
pub fn stats(v: Vec<u64>) -> (r: (u64, u64, u64))
    requires
        v@.len() > 0,
    ensures
        exists|sorted: Seq<u64>| #[trigger] is_sorted_form(v@, sorted) && r == summary(sorted)
            && sorted.len() == v@.len(),
{
    let mut v: Vec<u64> = v;
    let ghost given = v@;
    sort(&mut v);
    proof {
        assert(is_sorted_form(given, v@));
    }
    (v[0], v[v.len() / 2], v[v.len() - 1])
}

/// Judges a median.
pub fn verdict(median: u64) -> (r: Verdict)
    ensures
        r == if median < FRAME {
            Verdict::WithinFrame
        } else if median < BUDGET {
            Verdict::WithinBudget
        } else {
            Verdict::TooSlow
        },
{
    if median < FRAME {
        Verdict::WithinFrame
    } else if median < BUDGET {
        Verdict::WithinBudget
    } else {
        Verdict::TooSlow
    }
}

/// A summary does not depend on how the numbers were sorted, and its three numbers
/// are in order.
pub proof fn law_summary_is_unique(s: Seq<u64>, a: Seq<u64>, b: Seq<u64>)
    requires
        s.len() > 0,
        a.len() == s.len(),
        is_sorted_form(s, a),
        is_sorted_form(s, b),
    ensures
        summary(a) == summary(b),
        summary(a).0 <= summary(a).1 <= summary(a).2,
{
    lemma_sorted_is_unique(a, b);
}

proof fn lemma_sorted_is_unique(a: Seq<u64>, b: Seq<u64>)
    requires
        ascending(a),
        ascending(b),
        a.to_multiset() == b.to_multiset(),
    ensures
        a == b,
{
    vstd::seq_lib::lemma_sorted_unique(a, b, |x: u64, y: u64| x <= y);
}

/// The first and the last number of a summary bound all numbers. The middle one parts
/// them in two halves; of an even number of numbers it begins the upper half. All three
/// are numbers of the list.
pub proof fn law_the_median_parts_the_numbers(s: Seq<u64>, sorted: Seq<u64>, i: int)
    requires
        s.len() > 0,
        sorted.len() == s.len(),
        is_sorted_form(s, sorted),
        0 <= i < s.len(),
    ensures
        summary(sorted).0 <= s[i] <= summary(sorted).2,
        2 * i <= s.len() ==> sorted[i] <= summary(sorted).1,
        2 * i + 1 >= s.len() ==> sorted[i] >= summary(sorted).1,
        s.contains(summary(sorted).0),
        s.contains(summary(sorted).1),
        s.contains(summary(sorted).2),
{
    broadcast use vstd::seq_lib::group_to_multiset_ensures;

    assert(s.to_multiset().count(s[i]) > 0);
    assert(sorted.to_multiset().count(s[i]) > 0);
    assert(sorted.contains(s[i]));
    let k = choose|k: int| 0 <= k < sorted.len() && sorted[k] == s[i];
    assert(sorted[0] <= sorted[k]);
    assert(sorted[k] <= sorted[sorted.len() - 1]);
    assert(sorted.contains(sorted[0]));
    assert(sorted.contains(sorted[sorted.len() as int / 2]));
    assert(sorted.contains(sorted[sorted.len() - 1]));
    assert(s.to_multiset().count(sorted[0]) > 0);
    assert(s.to_multiset().count(sorted[sorted.len() as int / 2]) > 0);
    assert(s.to_multiset().count(sorted[sorted.len() - 1]) > 0);
}

} // verus!
