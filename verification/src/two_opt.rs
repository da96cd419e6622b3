//! 2-opt improvement of a drawing path: segments are reversed where that
//! shortens the Manhattan length, within a window of 500 points, for at most
//! 50 passes.

use vstd::prelude::*;
use crate::shared;
use crate::shared::Coordinates;
use crate::painting::path_length;
use crate::converter::ArtworkToCommandConverter;

verus! {

/// Whether replacing the legs `s[i]->s[i+1]` and `s[j]->s[j+1]` by
/// `s[i]->s[j]` and `s[i+1]->s[j+1]` makes the path shorter.
pub open spec fn improves(s: Seq<Coordinates>, i: int, j: int) -> bool {
    shared::manhattan(s[i], s[j]) + shared::manhattan(s[i + 1], s[j + 1])
        < shared::manhattan(s[i], s[i + 1]) + shared::manhattan(s[j], s[j + 1])
}

/// `s` with the points `lo..=hi` in reverse order.
pub open spec fn reverse_segment(s: Seq<Coordinates>, lo: int, hi: int) -> Seq<Coordinates> {
    s.take(lo) + s.subrange(lo, hi + 1).reverse() + s.skip(hi + 1)
}

/// One past the last `j` tried with `i`: at most 500 points on, and short of
/// the last point.
pub open spec fn window_end(i: int, n: int) -> int {
    if i + 500 < n - 1 { i + 500 } else { n - 1 }
}

/// The exchanges tried with a fixed `i`, for `j` from `j` up to `end`, each
/// made as soon as it shortens the path; with whether any was made.
pub open spec fn scan_row(s: Seq<Coordinates>, i: int, j: int, end: int, improved: bool) -> (Seq<Coordinates>, bool)
    decreases end - j,
{
    if j >= end {
        (s, improved)
    } else if improves(s, i, j) {
        scan_row(reverse_segment(s, i + 1, j), i, j + 1, end, true)
    } else {
        scan_row(s, i, j + 1, end, improved)
    }
}

/// The rows `i..n-2` of one pass.
pub open spec fn scan_rows(s: Seq<Coordinates>, i: int, n: int, improved: bool) -> (Seq<Coordinates>, bool)
    decreases n - i,
{
    if i >= n - 2 {
        (s, improved)
    } else {
        let (t, imp) = scan_row(s, i, i + 2, window_end(i, n), improved);
        scan_rows(t, i + 1, n, imp)
    }
}

/// Passes `k..50`, stopping after the first pass that changes nothing.
pub open spec fn two_opt_passes(s: Seq<Coordinates>, k: nat) -> Seq<Coordinates>
    decreases 50 - k,
{
    if k >= 50 {
        s
    } else {
        let (t, imp) = scan_rows(s, 0, s.len() as int, false);
        if imp { two_opt_passes(t, k + 1) } else { t }
    }
}

/// The 2-opt improvement of a path; paths of fewer than four points stay as they are.
pub open spec fn two_opt(s: Seq<Coordinates>) -> Seq<Coordinates> {
    if s.len() < 4 { s } else { two_opt_passes(s, 0) }
}

/// Some exchange `(i, j2)` with `j <= j2 < end` shortens `s`.
pub open spec fn improvable_row(s: Seq<Coordinates>, i: int, j: int, end: int) -> bool {
    exists|j2: int| j <= j2 < end && #[trigger] improves(s, i, j2)
}

/// Some exchange of the window in a row from `i` on shortens `s`.
pub open spec fn improvable_from(s: Seq<Coordinates>, i: int, n: int) -> bool {
    exists|i2: int, j2: int| i <= i2 < n - 2 && i2 + 2 <= j2 < window_end(i2, n) && #[trigger] improves(s, i2, j2)
}

/// No exchange within the window shortens `s`.
pub open spec fn is_two_opt_optimal(s: Seq<Coordinates>) -> bool {
    !improvable_from(s, 0, s.len() as int)
}

proof fn lemma_path_length_append(a: Seq<Coordinates>, b: Seq<Coordinates>)
    requires
        a.len() >= 1,
        b.len() >= 1,
    ensures
        path_length(a + b) == path_length(a) + shared::manhattan(a.last(), b[0]) + path_length(b),
    decreases b.len(),
{
    if b.len() == 1 {
        assert((a + b).drop_last() =~= a);
    } else {
        lemma_path_length_append(a, b.drop_last());
        assert((a + b).drop_last() =~= a + b.drop_last());
    }
}

proof fn lemma_path_length_reverse(a: Seq<Coordinates>)
    ensures
        path_length(a.reverse()) == path_length(a),
    decreases a.len(),
{
    if a.len() >= 2 {
        let r = a.reverse();
        assert(r.drop_last() =~= a.drop_first().reverse());
        lemma_path_length_reverse(a.drop_first());
        assert(a =~= seq![a[0]] + a.drop_first());
        lemma_path_length_append(seq![a[0]], a.drop_first());
    }
}

/// Reversing the points `lo..=hi` keeps the points, the ends and the inner
/// legs, and replaces the two legs at the borders of the segment.
proof fn lemma_reverse_segment(s: Seq<Coordinates>, lo: int, hi: int)
    requires
        1 <= lo <= hi,
        hi + 1 < s.len(),
    ensures
        reverse_segment(s, lo, hi).len() == s.len(),
        reverse_segment(s, lo, hi).to_multiset() == s.to_multiset(),
        reverse_segment(s, lo, hi)[0] == s[0],
        reverse_segment(s, lo, hi).last() == s.last(),
        path_length(reverse_segment(s, lo, hi)) + shared::manhattan(s[lo - 1], s[lo]) + shared::manhattan(s[hi], s[hi + 1])
            == path_length(s) + shared::manhattan(s[lo - 1], s[hi]) + shared::manhattan(s[lo], s[hi + 1]),
{
    broadcast use vstd::seq_lib::group_to_multiset_ensures, vstd::multiset::group_multiset_axioms;

    let a = s.take(lo);
    let m = s.subrange(lo, hi + 1);
    let b = s.skip(hi + 1);
    let mr = m.reverse();
    assert(s =~= a + m + b);
    lemma_path_length_append(a, m);
    lemma_path_length_append(a + m, b);
    lemma_path_length_reverse(m);
    lemma_path_length_append(a, mr);
    lemma_path_length_append(a + mr, b);
    assert((a + m).last() == s[hi]);
    assert((a + mr).last() == s[lo]);
    assert(mr[0] == s[hi]);
    vstd::seq_lib::lemma_multiset_commutative(a + m, b);
    vstd::seq_lib::lemma_multiset_commutative(a, m);
    vstd::seq_lib::lemma_multiset_commutative(a + mr, b);
    vstd::seq_lib::lemma_multiset_commutative(a, mr);
    m.lemma_reverse_to_multiset();
    assert(reverse_segment(s, lo, hi) =~= a + mr + b);
}

/// What one row of exchanges does: it keeps the points and the ends, never
/// lengthens the path, shortens it when some exchange of the row shortens `s`,
/// and changes nothing when none does.
proof fn lemma_scan_row(s: Seq<Coordinates>, i: int, j: int, end: int, improved: bool)
    requires
        0 <= i,
        i + 2 <= j,
        end <= s.len() - 1,
    ensures
        ({
            let (t, imp) = scan_row(s, i, j, end, improved);
            &&& t.len() == s.len()
            &&& t.to_multiset() == s.to_multiset()
            &&& t[0] == s[0]
            &&& t.last() == s.last()
            &&& improved ==> imp
            &&& (t == s || (imp && path_length(t) < path_length(s)))
            &&& (improvable_row(s, i, j, end) ==> imp && path_length(t) < path_length(s))
            &&& (!improvable_row(s, i, j, end) ==> t == s && imp == improved)
        }),
    decreases end - j,
{
    if j < end {
        if improves(s, i, j) {
            let s2 = reverse_segment(s, i + 1, j);
            lemma_reverse_segment(s, i + 1, j);
            lemma_scan_row(s2, i, j + 1, end, true);
        } else {
            lemma_scan_row(s, i, j + 1, end, improved);
            if improvable_row(s, i, j, end) {
                let j2 = choose|j2: int| j <= j2 < end && #[trigger] improves(s, i, j2);
                assert(improvable_row(s, i, j + 1, end));
            }
            if improvable_row(s, i, j + 1, end) {
                let j2 = choose|j2: int| j + 1 <= j2 < end && #[trigger] improves(s, i, j2);
                assert(improvable_row(s, i, j, end));
            }
        }
    }
}

/// What the rows from `i` on do, as for one row.
proof fn lemma_scan_rows(s: Seq<Coordinates>, i: int, n: int, improved: bool)
    requires
        0 <= i,
        n == s.len(),
    ensures
        ({
            let (t, imp) = scan_rows(s, i, n, improved);
            &&& t.len() == s.len()
            &&& t.to_multiset() == s.to_multiset()
            &&& (s.len() > 0 ==> t[0] == s[0] && t.last() == s.last())
            &&& improved ==> imp
            &&& (t == s || (imp && path_length(t) < path_length(s)))
            &&& (improvable_from(s, i, n) ==> imp && path_length(t) < path_length(s))
            &&& (!improvable_from(s, i, n) ==> t == s && imp == improved)
        }),
    decreases n - i,
{
    if i < n - 2 {
        let end = window_end(i, n);
        let (t1, imp1) = scan_row(s, i, i + 2, end, improved);
        lemma_scan_row(s, i, i + 2, end, improved);
        lemma_scan_rows(t1, i + 1, n, imp1);
        if improvable_from(s, i, n) {
            let (i2, j2) = choose|i2: int, j2: int| i <= i2 < n - 2 && i2 + 2 <= j2 < window_end(i2, n)
                && #[trigger] improves(s, i2, j2);
            if i2 == i {
                assert(improvable_row(s, i, i + 2, end));
            } else if t1 == s {
                assert(improvable_from(s, i + 1, n));
            }
        } else {
            if improvable_row(s, i, i + 2, end) {
                let j2 = choose|j2: int| i + 2 <= j2 < end && #[trigger] improves(s, i, j2);
                assert(improvable_from(s, i, n));
            }
            if improvable_from(s, i + 1, n) {
                let (i2, j2) = choose|i2: int, j2: int| i + 1 <= i2 < n - 2 && i2 + 2 <= j2 < window_end(i2, n)
                    && #[trigger] improves(s, i2, j2);
                assert(improvable_from(s, i, n));
            }
        }
    }
}

proof fn lemma_two_opt_passes(s: Seq<Coordinates>, k: nat)
    ensures
        two_opt_passes(s, k).len() == s.len(),
        two_opt_passes(s, k).to_multiset() == s.to_multiset(),
        s.len() > 0 ==> two_opt_passes(s, k)[0] == s[0] && two_opt_passes(s, k).last() == s.last(),
        path_length(two_opt_passes(s, k)) <= path_length(s),
        k < 50 && improvable_from(s, 0, s.len() as int) ==> path_length(two_opt_passes(s, k)) < path_length(s),
        k < 50 && !improvable_from(s, 0, s.len() as int) ==> two_opt_passes(s, k) == s,
    decreases 50 - k,
{
    if k < 50 {
        let (t, imp) = scan_rows(s, 0, s.len() as int, false);
        lemma_scan_rows(s, 0, s.len() as int, false);
        if imp {
            lemma_two_opt_passes(t, k + 1);
        }
    }
}

/// The 2-opt improvement keeps the points and the two ends of the path,
/// never makes it longer, makes it shorter unless no exchange within the
/// window shortens it, and leaves such a path as it is.
pub proof fn lemma_two_opt(s: Seq<Coordinates>)
    ensures
        two_opt(s).len() == s.len(),
        two_opt(s).to_multiset() == s.to_multiset(),
        s.len() > 0 ==> two_opt(s)[0] == s[0] && two_opt(s).last() == s.last(),
        path_length(two_opt(s)) <= path_length(s),
        is_two_opt_optimal(s) ==> two_opt(s) == s,
        !is_two_opt_optimal(s) ==> path_length(two_opt(s)) < path_length(s),
{
    if s.len() < 4 {
        if improvable_from(s, 0, s.len() as int) {
            let (i2, j2) = choose|i2: int, j2: int| 0 <= i2 < s.len() - 2 && i2 + 2 <= j2 < window_end(i2, s.len() as int)
                && #[trigger] improves(s, i2, j2);
            assert(false);
        }
    } else {
        lemma_two_opt_passes(s, 0);
    }
}

proof fn lemma_two_opt_passes_settle(s: Seq<Coordinates>, k: nat)
    requires
        k <= 50,
    ensures
        is_two_opt_optimal(two_opt_passes(s, k)) || path_length(two_opt_passes(s, k)) + (50 - k) <= path_length(s),
    decreases 50 - k,
{
    if k < 50 {
        let (t, imp) = scan_rows(s, 0, s.len() as int, false);
        lemma_scan_rows(s, 0, s.len() as int, false);
        if imp {
            lemma_two_opt_passes_settle(t, k + 1);
        }
    }
}

/// The 2-opt improvement stops only at a path that no exchange within the
/// window shortens, unless it ran out of passes: each of the 50 passes it may
/// make shortens the path by at least 1, so a result that some exchange still
/// shortens is at least 50 shorter than the given path.
pub proof fn lemma_two_opt_settles(s: Seq<Coordinates>)
    ensures
        is_two_opt_optimal(two_opt(s)) || path_length(two_opt(s)) + 50 <= path_length(s),
{
    lemma_two_opt(s);
    if s.len() >= 4 {
        lemma_two_opt_passes_settle(s, 0);
    }
}

/// Reverses the points `lo..=hi` of `v` in place.
fn reverse_range(v: &mut Vec<Coordinates>, lo: usize, hi: usize)
    requires
        lo <= hi < old(v)@.len(),
    ensures
        final(v)@ == reverse_segment(old(v)@, lo as int, hi as int),
{
    let ghost orig = v@;
    let mut a = lo;
    let mut b = hi;
    while a < b
        invariant
            lo <= a,
            b <= hi,
            hi < orig.len(),
            a + b == lo + hi,
            v@.len() == orig.len(),
            forall|k: int| 0 <= k < lo || hi < k < orig.len() ==> v@[k] == orig[k],
            forall|k: int| lo <= k < a || b < k <= hi ==> v@[k] == orig[lo + hi - k],
            forall|k: int| a <= k <= b ==> v@[k] == orig[k],
        decreases b + 1 - a,
    {
        let t = v[a];
        let u = v[b];
        v[a] = u;
        v[b] = t;
        a = a + 1;
        b = b - 1;
    }
    assert(v@ =~= reverse_segment(orig, lo as int, hi as int));
}

/// Reverses the points `i+1..=j` of `path` when that shortens it, and says
/// whether it did.
fn try_exchange(path: &mut Vec<Coordinates>, i: usize, j: usize) -> (r: bool)
    requires
        i + 2 <= j,
        j + 1 < old(path)@.len(),
    ensures
        r == improves(old(path)@, i as int, j as int),
        r ==> final(path)@ == reverse_segment(old(path)@, i + 1, j as int),
        !r ==> final(path)@ == old(path)@,
{
    let ghost s = path@;
    let n = path.len();
    let p1 = path[i];
    let p2 = path[i + 1];
    let p3 = path[j];
    let p4 = path[j + 1];
    assert(p1 == s[i as int] && p2 == s[i + 1] && p3 == s[j as int] && p4 == s[j + 1]);
    let d12 = p1.manhattan_distance_to(&p2);
    let d34 = p3.manhattan_distance_to(&p4);
    let d13 = p1.manhattan_distance_to(&p3);
    let d24 = p2.manhattan_distance_to(&p4);
    proof {
        shared::lemma_manhattan_bound(p1, p2);
        shared::lemma_manhattan_bound(p3, p4);
        shared::lemma_manhattan_bound(p1, p3);
        shared::lemma_manhattan_bound(p2, p4);
    }
    let current_dist = d12 + d34;
    let new_dist = d13 + d24;
    if new_dist < current_dist {
        reverse_range(path, i + 1, j);
        true
    } else {
        false
    }
}

impl ArtworkToCommandConverter {
    /// Improves `path` by 2-opt exchanges: for each `i`, and each `j` from
    /// `i + 2` within 500 points (and short of the last point), the segment
    /// `i+1..=j` is reversed when that shortens the path; passes are repeated
    /// while one changes something, at most 50 times. The points, the first
    /// and the last point stay; the path never gets longer, and it gets shorter
    /// unless no exchange within the window shortens the given path, in which
    /// case it comes back unchanged.
    pub fn two_opt_optimize(&self, path: Vec<Coordinates>) -> (r: Vec<Coordinates>)
        ensures
            r@ == two_opt(path@),
            r@.len() == path@.len(),
            r@.to_multiset() == path@.to_multiset(),
            path@.len() > 0 ==> r@[0] == path@[0] && r@.last() == path@.last(),
            path_length(r@) <= path_length(path@),
            is_two_opt_optimal(path@) ==> r@ == path@,
            !is_two_opt_optimal(path@) ==> path_length(r@) < path_length(path@),
            is_two_opt_optimal(r@) || path_length(r@) + 50 <= path_length(path@),
    {
        proof {
            lemma_two_opt(path@);
            lemma_two_opt_settles(path@);
        }
        let n = path.len();
        if n < 4 {
            return path;
        }
        let ghost s0 = path@;
        let mut path = path;
        let mut improved = true;
        let mut iterations: usize = 0;
        while improved && iterations < 50
            invariant
                n == path@.len(),
                n >= 4,
                iterations <= 50,
                s0.len() >= 4,
                two_opt(s0) == (if improved { two_opt_passes(path@, iterations as nat) } else { path@ }),
            decreases 50 - iterations,
        {
            let ghost start = path@;
            improved = false;
            iterations = iterations + 1;
            let mut i: usize = 0;
            while i < n - 2
                invariant
                    n == path@.len(),
                    n >= 4,
                    i <= n - 2,
                    scan_rows(path@, i as int, n as int, improved) == scan_rows(start, 0, n as int, false),
                decreases n - 2 - i,
            {
                let end_j = if 500 < n - 1 - i { i + 500 } else { n - 1 };
                let ghost row_start = path@;
                let ghost row_improved = improved;
                let mut j = i + 2;
                while j < end_j
                    invariant
                        n == path@.len(),
                        n >= 4,
                        i < n - 2,
                        i + 2 <= j,
                        end_j == window_end(i as int, n as int),
                        scan_row(path@, i as int, j as int, end_j as int, improved)
                            == scan_row(row_start, i as int, i + 2, end_j as int, row_improved),
                    decreases end_j - j,
                {
                    let ghost before = path@;
                    let ghost imp_before = improved;
                    if try_exchange(&mut path, i, j) {
                        improved = true;
                    }
                    assert(scan_row(before, i as int, j as int, end_j as int, imp_before)
                        == scan_row(path@, i as int, j + 1, end_j as int, improved));
                    j = j + 1;
                }
                i = i + 1;
            }
        }
        path
    }
}

} // verus!
