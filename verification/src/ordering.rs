//! Row-major ordering of grid points and a merge sort by it.

use vstd::prelude::*;
use vstd::relations::{sorted_by, total_ordering};
use crate::shared::Coordinates;

verus! {

broadcast use vstd::seq_lib::group_seq_properties, vstd::seq_lib::group_to_multiset_ensures,
    vstd::multiset::group_multiset_axioms;

/// `a` comes no later than `b` when reading rows top to bottom, each left to right.
pub open spec fn row_major_le(a: Coordinates, b: Coordinates) -> bool {
    a.y < b.y || (a.y == b.y && a.x <= b.x)
}

/// The points of `s` in row-major order.
pub open spec fn row_major_sorted(s: Seq<Coordinates>) -> Seq<Coordinates> {
    s.sort_by(|a: Coordinates, b: Coordinates| row_major_le(a, b))
}

/// Whether the points are in row-major order.
pub open spec fn is_row_major(s: Seq<Coordinates>) -> bool {
    forall|i: int, j: int| #![trigger s[i], s[j]] 0 <= i < j < s.len() ==> row_major_le(s[i], s[j])
}

pub proof fn lemma_row_major_total()
    ensures
        total_ordering(|a: Coordinates, b: Coordinates| row_major_le(a, b)),
{
}

/// A sequence sorted row-major that holds the points of `s` is `row_major_sorted(s)`.
pub proof fn lemma_row_major_sorted_unique(s: Seq<Coordinates>, t: Seq<Coordinates>)
    requires
        is_row_major(t),
        t.to_multiset() == s.to_multiset(),
    ensures
        t == row_major_sorted(s),
{
    let leq = |a: Coordinates, b: Coordinates| row_major_le(a, b);
    assert(sorted_by(t, leq)) by {
        assert forall|i: int, j: int| 0 <= i < j < t.len() implies #[trigger] leq(t[i], t[j]) by {
            assert(row_major_le(t[i], t[j]));
        }
    }
    s.lemma_sort_by_ensures(leq);
    lemma_row_major_total();
    vstd::seq_lib::lemma_sorted_unique(t, s.sort_by(leq), leq);
}

pub fn row_le(a: &Coordinates, b: &Coordinates) -> (r: bool)
    ensures
        r == row_major_le(*a, *b),
{
    a.y < b.y || (a.y == b.y && a.x <= b.x)
}

/// Merges two row-major sorted vectors.
fn merge(a: Vec<Coordinates>, b: Vec<Coordinates>) -> (r: Vec<Coordinates>)
    requires
        is_row_major(a@),
        is_row_major(b@),
    ensures
        is_row_major(r@),
        r@.to_multiset() == a@.to_multiset().add(b@.to_multiset()),
{
    let mut out: Vec<Coordinates> = Vec::new();
    let mut i: usize = 0;
    let mut j: usize = 0;
    while i < a.len() || j < b.len()
        invariant
            i <= a@.len(),
            j <= b@.len(),
            is_row_major(a@),
            is_row_major(b@),
            is_row_major(out@),
            out@.to_multiset() == a@.take(i as int).to_multiset().add(b@.take(j as int).to_multiset()),
            out@.len() == i + j,
            out@.len() > 0 && i < a@.len() ==> row_major_le(out@.last(), a@[i as int]),
            out@.len() > 0 && j < b@.len() ==> row_major_le(out@.last(), b@[j as int]),
        decreases a@.len() + b@.len() - i - j,
    {
        let ghost before = out@;
        if j >= b.len() || (i < a.len() && row_le(&a[i], &b[j])) {
            out.push(a[i]);
            assert(a@.take(i + 1) =~= a@.take(i as int).push(a@[i as int]));
            i = i + 1;
        } else {
            out.push(b[j]);
            assert(b@.take(j + 1) =~= b@.take(j as int).push(b@[j as int]));
            j = j + 1;
        }
        assert(out@.drop_last() =~= before);
        assert forall|p: int, q: int| #![trigger out@[p], out@[q]] 0 <= p < q < out@.len() implies row_major_le(out@[p], out@[q]) by {
            if q < before.len() {
                assert(out@[p] == before[p] && out@[q] == before[q]);
            } else if p < before.len() - 1 {
                assert(out@[p] == before[p]);
                assert(row_major_le(before[p], before[before.len() - 1]));
            }
        }
        proof {
            if i < a@.len() && i > 0 {
                assert(row_major_le(a@[i - 1], a@[i as int]));
            }
            if j < b@.len() && j > 0 {
                assert(row_major_le(b@[j - 1], b@[j as int]));
            }
        }
    }
    assert(a@.take(i as int) =~= a@);
    assert(b@.take(j as int) =~= b@);
    out
}

/// The points of `v[lo..hi]`, sorted row-major.
fn sort_range(v: &Vec<Coordinates>, lo: usize, hi: usize) -> (r: Vec<Coordinates>)
    requires
        lo <= hi <= v@.len(),
    ensures
        is_row_major(r@),
        r@.to_multiset() == v@.subrange(lo as int, hi as int).to_multiset(),
    decreases hi - lo,
{
    if hi - lo <= 1 {
        let mut r: Vec<Coordinates> = Vec::new();
        if hi - lo == 1 {
            r.push(v[lo]);
            assert(r@ =~= v@.subrange(lo as int, hi as int));
        } else {
            assert(v@.subrange(lo as int, hi as int) =~= Seq::<Coordinates>::empty());
        }
        return r;
    }
    let mid = lo + (hi - lo) / 2;
    let left = sort_range(v, lo, mid);
    let right = sort_range(v, mid, hi);
    proof {
        assert(v@.subrange(lo as int, hi as int) =~= v@.subrange(lo as int, mid as int) + v@.subrange(mid as int, hi as int));
        vstd::seq_lib::lemma_multiset_commutative(v@.subrange(lo as int, mid as int), v@.subrange(mid as int, hi as int));
    }
    merge(left, right)
}

/// The points sorted row-major; see `row_major_sorted`.
pub fn sort_row_major(v: &Vec<Coordinates>) -> (r: Vec<Coordinates>)
    ensures
        r@ == row_major_sorted(v@),
{
    let r = sort_range(v, 0, v.len());
    assert(v@.subrange(0, v@.len() as int) =~= v@);
    proof { lemma_row_major_sorted_unique(v@, r@); }
    r
}

/// `a` comes no later than `b` in zigzag order: rows top to bottom, even rows
/// left to right and odd rows right to left.
pub open spec fn zigzag_le(a: Coordinates, b: Coordinates) -> bool {
    a.y < b.y || (a.y == b.y && (if a.y % 2 == 1 { b.x <= a.x } else { a.x <= b.x }))
}

/// The points of `s` in zigzag order.
pub open spec fn zigzag_sorted(s: Seq<Coordinates>) -> Seq<Coordinates> {
    s.sort_by(|a: Coordinates, b: Coordinates| zigzag_le(a, b))
}

/// Whether the points are in zigzag order.
pub open spec fn is_zigzag(s: Seq<Coordinates>) -> bool {
    forall|i: int, j: int| #![trigger s[i], s[j]] 0 <= i < j < s.len() ==> zigzag_le(s[i], s[j])
}

pub proof fn lemma_zigzag_total()
    ensures
        total_ordering(|a: Coordinates, b: Coordinates| zigzag_le(a, b)),
{
}

/// A sequence in zigzag order that holds the points of `s` is `zigzag_sorted(s)`.
pub proof fn lemma_zigzag_sorted_unique(s: Seq<Coordinates>, t: Seq<Coordinates>)
    requires
        is_zigzag(t),
        t.to_multiset() == s.to_multiset(),
    ensures
        t == zigzag_sorted(s),
{
    let leq = |a: Coordinates, b: Coordinates| zigzag_le(a, b);
    assert(sorted_by(t, leq)) by {
        assert forall|i: int, j: int| 0 <= i < j < t.len() implies #[trigger] leq(t[i], t[j]) by {
            assert(zigzag_le(t[i], t[j]));
        }
    }
    s.lemma_sort_by_ensures(leq);
    lemma_zigzag_total();
    vstd::seq_lib::lemma_sorted_unique(t, s.sort_by(leq), leq);
}

/// The points of `v` in reverse order.
fn reversed(v: &Vec<Coordinates>) -> (r: Vec<Coordinates>)
    ensures
        r@ == v@.reverse(),
{
    let mut out: Vec<Coordinates> = Vec::new();
    let mut k = v.len();
    while k > 0
        invariant
            k <= v@.len(),
            out@.len() == v@.len() - k,
            forall|m: int| 0 <= m < out@.len() ==> out@[m] == v@[v@.len() - 1 - m],
        decreases k,
    {
        k = k - 1;
        out.push(v[k]);
    }
    assert(out@ =~= v@.reverse());
    out
}

/// Appends a finished row of points at height `y` to the zigzag result:
/// reversed when `y` is odd.
fn flush_row(result: &mut Vec<Coordinates>, row: &Vec<Coordinates>, y: u16)
    requires
        is_zigzag(old(result)@),
        forall|k: int| 0 <= k < old(result)@.len() ==> (#[trigger] old(result)@[k]).y < y,
        forall|k: int| 0 <= k < row@.len() ==> (#[trigger] row@[k]).y == y,
        is_row_major(row@),
    ensures
        is_zigzag(final(result)@),
        final(result)@.to_multiset() == old(result)@.to_multiset().add(row@.to_multiset()),
        forall|k: int| 0 <= k < final(result)@.len() ==> (#[trigger] final(result)@[k]).y <= y,
{
    let ghost before = result@;
    let mut seg = if y % 2 == 1 { reversed(row) } else { row.clone() };
    proof {
        if y % 2 == 1 {
            row@.lemma_reverse_to_multiset();
        }
        assert(seg@.to_multiset() == row@.to_multiset());
        assert forall|p: int, q: int| #![trigger seg@[p], seg@[q]] 0 <= p < q < seg@.len()
            implies seg@[p].y == y && zigzag_le(seg@[p], seg@[q]) by {
            if y % 2 == 1 {
                let n = row@.len() as int;
                assert(row_major_le(row@[n - 1 - q], row@[n - 1 - p]));
            } else {
                assert(row_major_le(row@[p], row@[q]));
            }
        }
        assert forall|p: int| 0 <= p < seg@.len() implies (#[trigger] seg@[p]).y == y by {
            if y % 2 == 1 {
                assert(seg@[p] == row@[row@.len() - 1 - p]);
            }
        }
    }
    let ghost segv = seg@;
    result.append(&mut seg);
    proof {
        assert(result@ == before + segv);
        vstd::seq_lib::lemma_multiset_commutative(before, segv);
        assert forall|p: int, q: int| #![trigger result@[p], result@[q]] 0 <= p < q < result@.len()
            implies zigzag_le(result@[p], result@[q]) by {
            if q < before.len() {
                assert(result@[p] == before[p] && result@[q] == before[q]);
            } else if p < before.len() {
                assert(result@[p] == before[p]);
                assert(result@[q] == segv[q - before.len()]);
            } else {
                assert(result@[p] == segv[p - before.len()]);
                assert(result@[q] == segv[q - before.len()]);
            }
        }
        assert forall|k: int| 0 <= k < result@.len() implies (#[trigger] result@[k]).y <= y by {
            if k >= before.len() {
                assert(result@[k] == segv[k - before.len()]);
            }
        }
    }
}

/// Row-major sorted points in zigzag order: each row whose `y` is odd is reversed.
pub fn zigzag_rows(coords: &Vec<Coordinates>) -> (r: Vec<Coordinates>)
    requires
        is_row_major(coords@),
    ensures
        is_zigzag(r@),
        r@.to_multiset() == coords@.to_multiset(),
{
    let mut result: Vec<Coordinates> = Vec::new();
    let mut current_y: u16 = 0;
    let mut row: Vec<Coordinates> = Vec::new();
    let ghost mut rs: int = 0;
    let mut i: usize = 0;
    while i < coords.len()
        invariant
            i <= coords@.len(),
            is_row_major(coords@),
            0 <= rs <= i,
            i > rs || (i == 0 && current_y == 0),
            row@ == coords@.subrange(rs, i as int),
            forall|k: int| rs <= k < i ==> (#[trigger] coords@[k]).y == current_y,
            is_zigzag(result@),
            result@.to_multiset() == coords@.take(rs).to_multiset(),
            forall|k: int| 0 <= k < result@.len() ==> (#[trigger] result@[k]).y < current_y,
        decreases coords@.len() - i,
    {
        let coord = coords[i];
        if coord.y != current_y {
            proof {
                if i > rs {
                    assert(row_major_le(coords@[i - 1], coords@[i as int]));
                }
                assert forall|p: int, q: int| #![trigger row@[p], row@[q]] 0 <= p < q < row@.len()
                    implies row_major_le(row@[p], row@[q]) by {
                    assert(row@[p] == coords@[rs + p] && row@[q] == coords@[rs + q]);
                }
                assert forall|k: int| 0 <= k < row@.len() implies (#[trigger] row@[k]).y == current_y by {
                    assert(row@[k] == coords@[rs + k]);
                }
            }
            flush_row(&mut result, &row, current_y);
            proof {
                assert(coords@.take(i as int) =~= coords@.take(rs) + row@);
                vstd::seq_lib::lemma_multiset_commutative(coords@.take(rs), row@);
                rs = i as int;
            }
            row = Vec::new();
            current_y = coord.y;
        }
        row.push(coord);
        i = i + 1;
        proof {
            assert(row@ =~= coords@.subrange(rs, i as int));
        }
    }
    proof {
        assert forall|p: int, q: int| #![trigger row@[p], row@[q]] 0 <= p < q < row@.len()
            implies row_major_le(row@[p], row@[q]) by {
            assert(row@[p] == coords@[rs + p] && row@[q] == coords@[rs + q]);
        }
        assert forall|k: int| 0 <= k < row@.len() implies (#[trigger] row@[k]).y == current_y by {
            assert(row@[k] == coords@[rs + k]);
        }
    }
    flush_row(&mut result, &row, current_y);
    proof {
        assert(coords@ =~= coords@.take(rs) + row@);
        vstd::seq_lib::lemma_multiset_commutative(coords@.take(rs), row@);
    }
    result
}

} // verus!
