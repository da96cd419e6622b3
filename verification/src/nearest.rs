//! Greedy nearest-neighbour ordering of grid points, searched through 10x10
//! buckets of a 320x120 area.

use vstd::prelude::*;
use crate::shared;
use crate::shared::Coordinates;

verus! {

broadcast use vstd::seq_lib::group_seq_properties, vstd::seq_lib::group_to_multiset_ensures,
    vstd::multiset::group_multiset_axioms;

/// The bucket row of a point.
pub open spec fn bucket_row(p: Coordinates) -> int {
    p.y as int / 10
}

/// The bucket column of a point.
pub open spec fn bucket_col(p: Coordinates) -> int {
    p.x as int / 10
}

/// Whether a point falls in one of the buckets.
pub open spec fn in_grid(p: Coordinates) -> bool {
    bucket_row(p) < 13 && bucket_col(p) < 33
}

/// Position of bucket `(r, c)` in row-major order.
pub open spec fn bucket_index(r: int, c: int) -> int {
    r * 33 + c
}

pub open spec fn abs(v: int) -> int {
    if v < 0 { -v } else { v }
}

/// Chebyshev distance between buckets `(r1, c1)` and `(r2, c2)`.
pub open spec fn bucket_distance(r1: int, c1: int, r2: int, c2: int) -> int {
    let dr = abs(r1 - r2);
    let dc = abs(c1 - c2);
    if dr >= dc { dr } else { dc }
}

/// Chebyshev distance between the buckets of two points.
pub open spec fn ring(p: Coordinates, q: Coordinates) -> int {
    bucket_distance(bucket_row(p), bucket_col(p), bucket_row(q), bucket_col(q))
}

/// Seen from `cur`, `chosen` is no worse than `q`: its bucket is in a nearer
/// ring, or in the same ring and no farther in Manhattan distance.
pub open spec fn nn_prefers(cur: Coordinates, chosen: Coordinates, q: Coordinates) -> bool {
    ring(cur, chosen) < ring(cur, q) || (ring(cur, chosen) == ring(cur, q) && shared::manhattan(cur, chosen)
        <= shared::manhattan(cur, q))
}

/// `start` may open the path before `q`: its bucket comes earlier in row-major
/// order, or it is the same bucket and `start` is no farther from the origin.
pub open spec fn nn_start_ok(start: Coordinates, q: Coordinates) -> bool {
    bucket_index(bucket_row(start), bucket_col(start)) < bucket_index(bucket_row(q), bucket_col(q))
        || (bucket_index(bucket_row(start), bucket_col(start)) == bucket_index(bucket_row(q), bucket_col(q))
        && start.x + start.y <= q.x + q.y)
}

/// Position `(b2, j)` (bucket, then place in the bucket) comes before `(b, i)`.
pub open spec fn position_before(b2: int, j: int, b: int, i: int) -> bool {
    b2 < b || (b2 == b && j < i)
}

/// The points the ordering keeps from `pts`: those in a bucket, with their multiplicity.
pub open spec fn kept_count(pts: Seq<Coordinates>, q: Coordinates) -> nat {
    if in_grid(q) { pts.to_multiset().count(q) } else { 0 }
}

/// The bucket a point falls in, in row-major order.
pub open spec fn home_bucket(p: Coordinates) -> int {
    bucket_index(bucket_row(p), bucket_col(p))
}

/// The points of `pts` that fall in bucket `b`, in their order in `pts`.
pub open spec fn bucket_points(pts: Seq<Coordinates>, b: int) -> Seq<Coordinates> {
    pts.filter(|p: Coordinates| in_grid(p) && home_bucket(p) == b)
}

/// The 429 buckets as they are filled from `pts`.
pub open spec fn initial_buckets(pts: Seq<Coordinates>) -> Seq<Seq<Coordinates>> {
    Seq::new(429, |b: int| bucket_points(pts, b))
}

/// The buckets after `p` is taken out of its own: its first occurrence there
/// is replaced by the bucket's last point, and the last place dropped.
pub open spec fn take_out(bs: Seq<Seq<Coordinates>>, p: Coordinates) -> Seq<Seq<Coordinates>> {
    let b = home_bucket(p);
    match bs[b].index_of_first(p) {
        Some(i) => bs.update(b, bs[b].update(i, bs[b].last()).drop_last()),
        None => bs,
    }
}

/// The buckets filled from `pts` after the points of `done` are taken out, in order.
pub open spec fn buckets_after(pts: Seq<Coordinates>, done: Seq<Coordinates>) -> Seq<Seq<Coordinates>>
    decreases done.len(),
{
    if done.len() == 0 {
        initial_buckets(pts)
    } else {
        take_out(buckets_after(pts, done.drop_last()), done.last())
    }
}

/// `s` opens the path from buckets `bs`: it stands in its own bucket, and every
/// point at an earlier position (an earlier bucket, or earlier in the same
/// bucket) may not open before it.
pub open spec fn first_start(bs: Seq<Seq<Coordinates>>, s: Coordinates) -> bool {
    exists|i: int| 0 <= i < bs[home_bucket(s)].len() && #[trigger] bs[home_bucket(s)][i] == s
        && forall|b2: int, j: int| 0 <= b2 < bs.len() && 0 <= j < bs[b2].len() && position_before(b2, j, home_bucket(s), i)
            ==> !nn_start_ok(#[trigger] bs[b2][j], s)
}

/// From `cur`, `nxt` is the first point of buckets `bs` that every point is no
/// better than: it stands in its own bucket, and every point at an earlier
/// position is strictly worse.
pub open spec fn first_nearest(bs: Seq<Seq<Coordinates>>, cur: Coordinates, nxt: Coordinates) -> bool {
    exists|i: int| 0 <= i < bs[home_bucket(nxt)].len() && #[trigger] bs[home_bucket(nxt)][i] == nxt
        && forall|b2: int, j: int| 0 <= b2 < bs.len() && 0 <= j < bs[b2].len() && position_before(b2, j, home_bucket(nxt), i)
            ==> !nn_prefers(cur, #[trigger] bs[b2][j], nxt)
}

/// What each bucket holds.
pub open spec fn bucket_views(bs: Seq<Vec<Coordinates>>) -> Seq<Seq<Coordinates>> {
    Seq::new(bs.len(), |b: int| bs[b]@)
}

/// What a nearest-neighbour ordering of `pts` is: the kept points, each as often
/// as in `pts`; a first point no later than any other; and each next point
/// preferred, from the one before it, to every point after it. Ties are broken
/// by position in the buckets: the first point is the first in bucket order
/// (so, within its bucket, the first in `pts`) that no point may open before,
/// and each next point is the first, in the buckets as they stand after the
/// points before it were taken out, that no remaining point is better than.
pub open spec fn is_nearest_neighbor_order(pts: Seq<Coordinates>, r: Seq<Coordinates>) -> bool {
    &&& forall|q: Coordinates| r.to_multiset().count(q) == kept_count(pts, q)
    &&& forall|j: int| 0 <= j < r.len() ==> nn_start_ok(r[0], #[trigger] r[j])
    &&& forall|k: int, j: int| 0 <= k < j < r.len() ==> nn_prefers(#[trigger] r[k], r[k + 1], #[trigger] r[j])
    &&& r.len() > 0 ==> first_start(initial_buckets(pts), r[0])
    &&& forall|k: int| 0 <= k < r.len() - 1
        ==> #[trigger] first_nearest(buckets_after(pts, r.take(k + 1)), r[k], r[k + 1])
}

/// Buckets: 429 of them, each holding only points of its own cell.
pub open spec fn buckets_wf(bs: Seq<Vec<Coordinates>>) -> bool {
    &&& bs.len() == 429
    &&& forall|r: int, c: int, j: int| 0 <= r < 13 && 0 <= c < 33 && 0 <= j < bs[bucket_index(r, c)]@.len()
        ==> bucket_row(#[trigger] bs[bucket_index(r, c)]@[j]) == r && bucket_col(bs[bucket_index(r, c)]@[j]) == c
}

/// How often `q` is in the buckets.
pub open spec fn grid_count(bs: Seq<Vec<Coordinates>>, q: Coordinates) -> nat {
    if in_grid(q) { bs[bucket_index(bucket_row(q), bucket_col(q))]@.to_multiset().count(q) } else { 0 }
}

/// Total number of points in the buckets.
pub open spec fn lens_sum(bs: Seq<Vec<Coordinates>>) -> nat
    decreases bs.len(),
{
    if bs.len() == 0 { 0 } else { lens_sum(bs.drop_last()) + bs.last()@.len() }
}

proof fn lemma_lens_sum_update(bs: Seq<Vec<Coordinates>>, b: int, v: Vec<Coordinates>)
    requires
        0 <= b < bs.len(),
    ensures
        lens_sum(bs.update(b, v)) + bs[b]@.len() == lens_sum(bs) + v@.len(),
    decreases bs.len(),
{
    if b < bs.len() - 1 {
        assert(bs.update(b, v).drop_last() =~= bs.drop_last().update(b, v));
        lemma_lens_sum_update(bs.drop_last(), b, v);
    } else {
        assert(bs.update(b, v).drop_last() =~= bs.drop_last());
    }
}

proof fn lemma_lens_sum_positive(bs: Seq<Vec<Coordinates>>, b: int)
    requires
        0 <= b < bs.len(),
    ensures
        lens_sum(bs) >= bs[b]@.len(),
    decreases bs.len(),
{
    if b < bs.len() - 1 {
        lemma_lens_sum_positive(bs.drop_last(), b);
    }
}

proof fn lemma_bucket_index_bounds(r: int, c: int)
    requires
        0 <= r < 13,
        0 <= c < 33,
    ensures
        0 <= bucket_index(r, c) < 429,
{
}

proof fn lemma_bucket_index_injective(r1: int, c1: int, r2: int, c2: int)
    requires
        0 <= r1 < 13,
        0 <= c1 < 33,
        0 <= r2 < 13,
        0 <= c2 < 33,
        bucket_index(r1, c1) == bucket_index(r2, c2),
    ensures
        r1 == r2,
        c1 == c2,
{
    assert(r1 == r2 && c1 == c2) by (nonlinear_arith)
        requires r1 * 33 + c1 == r2 * 33 + c2, 0 <= c1 < 33, 0 <= c2 < 33, 0 <= r1, 0 <= r2;
}

/// 429 empty buckets.
fn empty_buckets() -> (bs: Vec<Vec<Coordinates>>)
    ensures
        buckets_wf(bs@),
        forall|b: int| 0 <= b < 429 ==> (#[trigger] bs@[b])@.len() == 0,
{
    let mut bs: Vec<Vec<Coordinates>> = Vec::new();
    let mut i: usize = 0;
    while i < 429
        invariant
            i <= 429,
            bs@.len() == i,
            forall|b: int| 0 <= b < i ==> (#[trigger] bs@[b])@.len() == 0,
        decreases 429 - i,
    {
        bs.push(Vec::new());
        i = i + 1;
    }
    bs
}

/// The bucket row and column of a point, if it falls in the buckets.
fn bucket_of(p: &Coordinates) -> (r: Option<(usize, usize)>)
    ensures
        match r {
            Some((row, col)) => in_grid(*p) && row == bucket_row(*p) && col == bucket_col(*p),
            None => !in_grid(*p),
        },
{
    let row = (p.y / 10) as usize;
    let col = (p.x / 10) as usize;
    if row < 13 && col < 33 { Some((row, col)) } else { None }
}

/// The points of `pts` that fall in the buckets, each in its own bucket, in order.
fn fill_buckets(pts: &Vec<Coordinates>) -> (bs: Vec<Vec<Coordinates>>)
    ensures
        buckets_wf(bs@),
        forall|q: Coordinates| grid_count(bs@, q) == kept_count(pts@, q),
        bucket_views(bs@) == initial_buckets(pts@),
{
    let mut bs = empty_buckets();
    let mut i: usize = 0;
    assert(pts@.take(0) =~= Seq::<Coordinates>::empty());
    assert(bucket_views(bs@) =~~= initial_buckets(pts@.take(0)));
    while i < pts.len()
        invariant
            i <= pts@.len(),
            buckets_wf(bs@),
            forall|q: Coordinates| grid_count(bs@, q) == kept_count(pts@.take(i as int), q),
            bucket_views(bs@) == initial_buckets(pts@.take(i as int)),
        decreases pts@.len() - i,
    {
        let p = pts[i];
        assert(pts@.take(i + 1) =~= pts@.take(i as int).push(p));
        assert(pts@.take(i + 1).drop_last() =~= pts@.take(i as int));
        let ghost before_bs = bs@;
        match bucket_of(&p) {
            Some((row, col)) => {
                let b = row * 33 + col;
                let ghost old_bs = bs@;
                proof { lemma_bucket_index_bounds(row as int, col as int); }
                bs[b].push(p);
                assert(bs@ == old_bs.update(b as int, bs@[b as int]));
                assert(bs@[b as int]@ == old_bs[b as int]@.push(p));
                assert forall|r: int, c: int, j: int| 0 <= r < 13 && 0 <= c < 33 && 0 <= j < bs@[bucket_index(r, c)]@.len()
                    implies bucket_row(#[trigger] bs@[bucket_index(r, c)]@[j]) == r && bucket_col(bs@[bucket_index(r, c)]@[j]) == c by {
                    if bucket_index(r, c) == b {
                        lemma_bucket_index_injective(r, c, row as int, col as int);
                        if j < old_bs[b as int]@.len() {
                            assert(bs@[b as int]@[j] == old_bs[b as int]@[j]);
                        }
                    } else {
                        assert(bs@[bucket_index(r, c)] == old_bs[bucket_index(r, c)]);
                    }
                }
                assert(pts@.take(i + 1).to_multiset() == pts@.take(i as int).to_multiset().insert(p));
                assert(bs@[b as int]@.to_multiset() == old_bs[b as int]@.to_multiset().insert(p));
                assert forall|q: Coordinates| grid_count(bs@, q) == kept_count(pts@.take(i + 1), q) by {
                    assert(grid_count(old_bs, q) == kept_count(pts@.take(i as int), q));
                    if in_grid(q) {
                        let qb = bucket_index(bucket_row(q), bucket_col(q));
                        if qb == b {
                            lemma_bucket_index_injective(bucket_row(q), bucket_col(q), row as int, col as int);
                        } else {
                            assert(bs@[qb] == old_bs[qb]);
                            assert(q != p);
                        }
                    }
                }
                assert(bucket_views(bs@) =~~= initial_buckets(pts@.take(i + 1))) by {
                    assert forall|b2: int| 0 <= b2 < 429 implies #[trigger] bucket_views(bs@)[b2]
                        == bucket_points(pts@.take(i + 1), b2) by {
                        assert(bucket_views(old_bs)[b2] == bucket_points(pts@.take(i as int), b2));
                        lemma_bucket_points_push(pts@.take(i as int), p, b2);
                        if b2 != b {
                            assert(bs@[b2] == old_bs[b2]);
                        }
                    }
                }
            },
            None => {
                assert(bucket_views(bs@) =~~= initial_buckets(pts@.take(i + 1))) by {
                    assert forall|b2: int| 0 <= b2 < 429 implies #[trigger] bucket_points(pts@.take(i + 1), b2)
                        == bucket_points(pts@.take(i as int), b2) by {
                        lemma_bucket_points_push(pts@.take(i as int), p, b2);
                    }
                }
                assert(pts@.take(i + 1).to_multiset() == pts@.take(i as int).to_multiset().insert(p));
                assert forall|q: Coordinates| grid_count(bs@, q) == kept_count(pts@.take(i + 1), q) by {
                    if in_grid(q) {
                        assert(q != p);
                    }
                }
            },
        }
        i = i + 1;
    }
    assert(pts@.take(i as int) =~= pts@);
    bs
}

proof fn lemma_bucket_points_push(s: Seq<Coordinates>, p: Coordinates, b: int)
    ensures
        bucket_points(s.push(p), b) == (if in_grid(p) && home_bucket(p) == b {
            bucket_points(s, b).push(p)
        } else {
            bucket_points(s, b)
        }),
{
    let f = |q: Coordinates| in_grid(q) && home_bucket(q) == b;
    assert(s.push(p).drop_last() =~= s);
    assert(s.push(p).last() == p);
    reveal_with_fuel(Seq::filter, 1);
    assert(bucket_points(s.push(p), b) == s.push(p).filter(f));
    assert(bucket_points(s, b) == s.filter(f));
    assert(s.push(p).filter(f) == (if f(p) { s.filter(f).push(p) } else { s.filter(f) }));
}

/// Whether a bucket point counts for `grid_count`.
proof fn lemma_member_counts(bs: Seq<Vec<Coordinates>>, r: int, c: int, j: int)
    requires
        buckets_wf(bs),
        0 <= r < 13,
        0 <= c < 33,
        0 <= j < bs[bucket_index(r, c)]@.len(),
    ensures
        in_grid(bs[bucket_index(r, c)]@[j]),
        grid_count(bs, bs[bucket_index(r, c)]@[j]) > 0,
{
    let q = bs[bucket_index(r, c)]@[j];
    assert(bucket_row(q) == r && bucket_col(q) == c);
    assert(bs[bucket_index(r, c)]@.to_multiset().count(q) > 0);
}

/// A point counted in the buckets lies in its own bucket.
proof fn lemma_counted_member(bs: Seq<Vec<Coordinates>>, q: Coordinates)
    requires
        buckets_wf(bs),
        grid_count(bs, q) > 0,
    ensures
        in_grid(q),
        bs[bucket_index(bucket_row(q), bucket_col(q))]@.contains(q),
{
    assert(bs[bucket_index(bucket_row(q), bucket_col(q))]@.to_multiset().count(q) > 0);
}

/// The first point of a nearest-neighbour path: in the first non-empty bucket,
/// the first point with the least `x + y`.
fn find_start(bs: &Vec<Vec<Coordinates>>) -> (r: Option<(usize, usize)>)
    requires
        buckets_wf(bs@),
    ensures
        match r {
            None => forall|q: Coordinates| grid_count(bs@, q) == 0,
            Some((b, i)) => b < 429 && i < bs@[b as int]@.len() && in_grid(bs@[b as int]@[i as int])
                && b == bucket_index(bucket_row(bs@[b as int]@[i as int]), bucket_col(bs@[b as int]@[i as int]))
                && (forall|q: Coordinates| grid_count(bs@, q) > 0 ==> nn_start_ok(bs@[b as int]@[i as int], q))
                && forall|b2: int, j: int| 0 <= b2 < 429 && 0 <= j < bs@[b2]@.len() && position_before(b2, j, b as int, i as int)
                    ==> !nn_start_ok(#[trigger] bs@[b2]@[j], bs@[b as int]@[i as int]),
        },
{
    let mut row: usize = 0;
    while row < 13
        invariant
            row <= 13,
            buckets_wf(bs@),
            forall|r: int, c: int| 0 <= r < row && 0 <= c < 33 ==> (#[trigger] bs@[bucket_index(r, c)])@.len() == 0,
        decreases 13 - row,
    {
        let mut col: usize = 0;
        while col < 33
            invariant
                row < 13,
                col <= 33,
                buckets_wf(bs@),
                forall|r: int, c: int| 0 <= r < 13 && 0 <= c < 33 && bucket_index(r, c) < bucket_index(row as int, col as int)
                    ==> (#[trigger] bs@[bucket_index(r, c)])@.len() == 0,
            decreases 33 - col,
        {
            let b = row * 33 + col;
            if bs[b].len() > 0 {
                let bucket = &bs[b];
                let mut best: usize = 0;
                let mut best_val: u32 = (bucket[0].x as u32) + (bucket[0].y as u32);
                let mut j: usize = 1;
                while j < bucket.len()
                    invariant
                        1 <= j <= bucket@.len(),
                        best < bucket@.len(),
                        best_val == bucket@[best as int].x + bucket@[best as int].y,
                        forall|k: int| 0 <= k < j ==> best_val <= (#[trigger] bucket@[k]).x + bucket@[k].y,
                        forall|k: int| 0 <= k < best ==> best_val < (#[trigger] bucket@[k]).x + bucket@[k].y,
                    decreases bucket@.len() - j,
                {
                    let v: u32 = (bucket[j].x as u32) + (bucket[j].y as u32);
                    if v < best_val {
                        best_val = v;
                        best = j;
                    }
                    j = j + 1;
                }
                proof {
                    let start = bs@[b as int]@[best as int];
                    lemma_member_counts(bs@, row as int, col as int, best as int);
                    assert forall|q: Coordinates| grid_count(bs@, q) > 0 implies nn_start_ok(start, q) by {
                        lemma_counted_member(bs@, q);
                        let qb = bucket_index(bucket_row(q), bucket_col(q));
                        let k = choose|k: int| 0 <= k < bs@[qb]@.len() && bs@[qb]@[k] == q;
                        if qb == b as int {
                            lemma_bucket_index_injective(bucket_row(q), bucket_col(q), row as int, col as int);
                            assert(best_val <= bucket@[k].x + bucket@[k].y);
                        }
                    }
                    assert forall|b2: int, j: int| 0 <= b2 < 429 && 0 <= j < bs@[b2]@.len() && position_before(b2, j, b as int, best as int)
                        implies !nn_start_ok(#[trigger] bs@[b2]@[j], start) by {
                        let rq = b2 / 33;
                        let cq = b2 % 33;
                        assert(b2 == bucket_index(rq, cq));
                        let q = bs@[b2]@[j];
                        assert(bucket_row(q) == rq && bucket_col(q) == cq);
                        if b2 < b {
                            assert(bs@[bucket_index(rq, cq)]@.len() == 0);
                        } else {
                            assert(best_val < bucket@[j].x + bucket@[j].y);
                        }
                    }
                }
                return Some((b, best));
            }
            col = col + 1;
        }
        row = row + 1;
    }
    proof {
        assert forall|q: Coordinates| grid_count(bs@, q) == 0 by {
            if grid_count(bs@, q) > 0 {
                lemma_counted_member(bs@, q);
            }
        }
    }
    None
}

/// Removing the `i`-th item by moving the last one into its place leaves the
/// other items as they were.
proof fn lemma_swap_remove_multiset(s: Seq<Coordinates>, i: int)
    requires
        0 <= i < s.len(),
    ensures
        s.update(i, s.last()).drop_last().to_multiset() =~= s.to_multiset().remove(s[i]),
{
    let t = s.update(i, s.last());
    assert(t =~= t.drop_last().push(t.last()));
    assert(t.drop_last().push(t.last()).to_multiset() =~= t.drop_last().to_multiset().insert(s.last()));
    assert(t.to_multiset() == s.to_multiset().insert(s.last()).remove(s[i]));
    assert(s.to_multiset().count(s[i]) > 0);
    assert forall|x: Coordinates| t.drop_last().to_multiset().count(x) == s.to_multiset().remove(s[i]).count(x) by {
        assert(t.drop_last().to_multiset().insert(s.last()).count(x)
            == s.to_multiset().insert(s.last()).remove(s[i]).count(x));
    }
}

/// The first point of `bucket` nearest to `cur`, with its distance, if that
/// distance is below `limit`.
fn bucket_nearest(bucket: &Vec<Coordinates>, cur: &Coordinates, limit: u32) -> (r: Option<(usize, u32)>)
    ensures
        match r {
            None => forall|j: int| 0 <= j < bucket@.len() ==> limit <= shared::manhattan(*cur, #[trigger] bucket@[j]),
            Some((i, d)) => i < bucket@.len() && d == shared::manhattan(*cur, bucket@[i as int]) && d < limit
                && (forall|j: int| 0 <= j < bucket@.len() ==> d <= shared::manhattan(*cur, #[trigger] bucket@[j]))
                && forall|j: int| 0 <= j < i ==> d < shared::manhattan(*cur, #[trigger] bucket@[j]),
        },
{
    let mut best: Option<(usize, u32)> = None;
    let mut best_dist: u32 = limit;
    let mut i: usize = 0;
    while i < bucket.len()
        invariant
            i <= bucket@.len(),
            best_dist <= limit,
            forall|j: int| 0 <= j < i ==> best_dist <= shared::manhattan(*cur, #[trigger] bucket@[j]),
            match best {
                None => best_dist == limit,
                Some((k, d)) => k < i && d == best_dist && d == shared::manhattan(*cur, bucket@[k as int]) && d < limit
                    && forall|j: int| 0 <= j < k ==> d < shared::manhattan(*cur, #[trigger] bucket@[j]),
            },
        decreases bucket@.len() - i,
    {
        let d = cur.manhattan_distance_to(&bucket[i]);
        if d < best_dist {
            best_dist = d;
            best = Some((i, d));
        }
        i = i + 1;
    }
    best
}

/// Whether every bucket nearer to `(cr, cc)` than `radius` is empty.
pub open spec fn inner_empty(bs: Seq<Vec<Coordinates>>, cr: int, cc: int, radius: int) -> bool {
    forall|r: int, c: int| 0 <= r < 13 && 0 <= c < 33 && bucket_distance(cr, cc, r, c) < radius
        ==> (#[trigger] bs[bucket_index(r, c)])@.len() == 0
}

/// Whether every point of bucket `(r, c)` is more than `d` away from `cur`.
pub open spec fn bucket_farther(bs: Seq<Vec<Coordinates>>, r: int, c: int, cur: Coordinates, d: int) -> bool {
    forall|j: int| 0 <= j < bs[bucket_index(r, c)]@.len() ==> d < shared::manhattan(cur, #[trigger] bs[bucket_index(r, c)]@[j])
}

/// The candidate is the first in its bucket at its distance from `cur`.
pub open spec fn candidate_first(bs: Seq<Vec<Coordinates>>, cur: Coordinates, best: Option<(usize, usize, u32)>) -> bool {
    match best {
        None => true,
        Some((b, i, d)) => forall|j: int| 0 <= j < i ==> d < shared::manhattan(cur, #[trigger] bs[b as int]@[j]),
    }
}

/// The bucket of the candidate, -1 while there is none.
pub open spec fn candidate_bucket(best: Option<(usize, usize, u32)>) -> int {
    match best {
        Some((b, i, d)) => b as int,
        None => -1,
    }
}

/// Whether every point of bucket `(r, c)` is at least `d` away from `cur`.
pub open spec fn bucket_no_nearer(bs: Seq<Vec<Coordinates>>, r: int, c: int, cur: Coordinates, d: int) -> bool {
    forall|j: int| 0 <= j < bs[bucket_index(r, c)]@.len() ==> d <= shared::manhattan(cur, #[trigger] bs[bucket_index(r, c)]@[j])
}

/// The best candidate found so far on ring `radius` around `cur`, with its
/// distance; `u32::MAX` while there is none.
pub open spec fn candidate_ok(bs: Seq<Vec<Coordinates>>, cur: Coordinates, radius: int, best: Option<(usize, usize, u32)>, best_dist: u32) -> bool {
    match best {
        None => best_dist == u32::MAX,
        Some((b, i, d)) => b < 429 && i < bs[b as int]@.len() && d == best_dist
            && b == bucket_index(bucket_row(bs[b as int]@[i as int]), bucket_col(bs[b as int]@[i as int]))
            && in_grid(bs[b as int]@[i as int])
            && ring(cur, bs[b as int]@[i as int]) == radius
            && d == shared::manhattan(cur, bs[b as int]@[i as int]),
    }
}

/// Looks at bucket `(r, c)` of ring `radius` for a point nearer to `cur`
/// than the best so far, and takes the first nearest one.
fn consider_bucket(bs: &Vec<Vec<Coordinates>>, cur: &Coordinates, radius: usize, r: usize, c: usize,
    best: Option<(usize, usize, u32)>, best_dist: u32) -> (res: (Option<(usize, usize, u32)>, u32))
    requires
        buckets_wf(bs@),
        in_grid(*cur),
        r < 13,
        c < 33,
        bucket_distance(bucket_row(*cur), bucket_col(*cur), r as int, c as int) <= radius,
        inner_empty(bs@, bucket_row(*cur), bucket_col(*cur), radius as int),
        candidate_ok(bs@, *cur, radius as int, best, best_dist),
    ensures
        candidate_ok(bs@, *cur, radius as int, res.0, res.1),
        res.1 <= best_dist,
        bucket_no_nearer(bs@, r as int, c as int, *cur, res.1 as int),
        res.1 == best_dist ==> res.0 == best,
        res.1 < best_dist ==> (res.0 matches Some((b, i, d)) && b == bucket_index(r as int, c as int))
            && candidate_first(bs@, *cur, res.0),
{
    let b = r * 33 + c;
    proof { lemma_bucket_index_bounds(r as int, c as int); }
    if bs[b].len() > 0 {
        match bucket_nearest(&bs[b], cur, best_dist) {
            Some((i, d)) => {
                proof {
                    let p = bs@[b as int]@[i as int];
                    assert(bucket_row(p) == r && bucket_col(p) == c);
                    if bucket_distance(bucket_row(*cur), bucket_col(*cur), r as int, c as int) < radius {
                        assert(bs@[bucket_index(r as int, c as int)]@.len() == 0);
                    }
                }
                (Some((b, i, d)), d)
            },
            None => (best, best_dist),
        }
    } else {
        (best, best_dist)
    }
}

/// Looks through the buckets at Chebyshev distance `radius` from the bucket of
/// `cur` (the border of the clamped square around it), row by row, for the
/// first point nearest to `cur`.
fn scan_ring(bs: &Vec<Vec<Coordinates>>, cur: &Coordinates, cr: usize, cc: usize, radius: usize)
    -> (res: Option<(usize, usize, u32)>)
    requires
        buckets_wf(bs@),
        in_grid(*cur),
        cr == bucket_row(*cur),
        cc == bucket_col(*cur),
        radius <= 33,
        inner_empty(bs@, cr as int, cc as int, radius as int),
    ensures
        match res {
            None => inner_empty(bs@, cr as int, cc as int, radius + 1),
            Some((b, i, d)) => b < 429 && i < bs@[b as int]@.len()
                && b == bucket_index(bucket_row(bs@[b as int]@[i as int]), bucket_col(bs@[b as int]@[i as int]))
                && in_grid(bs@[b as int]@[i as int])
                && ring(*cur, bs@[b as int]@[i as int]) == radius
                && d == shared::manhattan(*cur, bs@[b as int]@[i as int])
                && (forall|r: int, c: int| 0 <= r < 13 && 0 <= c < 33 && bucket_distance(cr as int, cc as int, r, c) == radius
                    ==> #[trigger] bucket_no_nearer(bs@, r, c, *cur, d as int))
                && (forall|r: int, c: int| 0 <= r < 13 && 0 <= c < 33 && bucket_distance(cr as int, cc as int, r, c) == radius
                    && bucket_index(r, c) < b ==> #[trigger] bucket_farther(bs@, r, c, *cur, d as int))
                && forall|j: int| 0 <= j < i ==> d < shared::manhattan(*cur, #[trigger] bs@[b as int]@[j]),
        },
{
    let rmin: usize = if cr >= radius { cr - radius } else { 0 };
    let rmax: usize = if cr + radius < 13 { cr + radius } else { 12 };
    let cmin: usize = if cc >= radius { cc - radius } else { 0 };
    let cmax: usize = if cc + radius < 33 { cc + radius } else { 32 };
    let ghost cri = cr as int;
    let ghost cci = cc as int;
    let ghost rad = radius as int;
    let mut best: Option<(usize, usize, u32)> = None;
    let mut best_dist: u32 = u32::MAX;
    let mut r: usize = rmin;
    while r <= rmax
        invariant
            buckets_wf(bs@),
            in_grid(*cur),
            cr == bucket_row(*cur),
            cc == bucket_col(*cur),
            radius <= 33,
            inner_empty(bs@, cri, cci, rad),
            cri == cr, cci == cc, rad == radius,
            rmin == (if cr >= radius { cr - radius } else { 0 }),
            rmax == (if cr + radius < 13 { cr + radius } else { 12 }),
            cmin == (if cc >= radius { cc - radius } else { 0 }),
            cmax == (if cc + radius < 33 { cc + radius } else { 32 }),
            rmin <= r <= rmax + 1,
            forall|r2: int, c2: int| rmin <= r2 < r && cmin <= c2 <= cmax
                && (radius == 0 || r2 == rmin || r2 == rmax || c2 == cmin || c2 == cmax)
                ==> #[trigger] bucket_no_nearer(bs@, r2, c2, *cur, best_dist as int),
            forall|r2: int, c2: int| rmin <= r2 < r && cmin <= c2 <= cmax
                && (radius == 0 || r2 == rmin || r2 == rmax || c2 == cmin || c2 == cmax)
                && bucket_index(r2, c2) < candidate_bucket(best)
                ==> #[trigger] bucket_farther(bs@, r2, c2, *cur, best_dist as int),
            candidate_bucket(best) < bucket_index(r as int, 0),
            candidate_ok(bs@, *cur, rad, best, best_dist),
            candidate_first(bs@, *cur, best),
        decreases rmax + 1 - r,
    {
        let mut c: usize = cmin;
        while c <= cmax
            invariant
                buckets_wf(bs@),
                in_grid(*cur),
                cr == bucket_row(*cur),
                cc == bucket_col(*cur),
                radius <= 33,
                inner_empty(bs@, cri, cci, rad),
                cri == cr, cci == cc, rad == radius,
                rmin == (if cr >= radius { cr - radius } else { 0 }),
                rmax == (if cr + radius < 13 { cr + radius } else { 12 }),
                cmin == (if cc >= radius { cc - radius } else { 0 }),
                cmax == (if cc + radius < 33 { cc + radius } else { 32 }),
                rmin <= r <= rmax,
                cmin <= c <= cmax + 1,
                forall|r2: int, c2: int| rmin <= r2 <= r && cmin <= c2 <= cmax && (r2 < r || c2 < c)
                    && (radius == 0 || r2 == rmin || r2 == rmax || c2 == cmin || c2 == cmax)
                    ==> #[trigger] bucket_no_nearer(bs@, r2, c2, *cur, best_dist as int),
                forall|r2: int, c2: int| rmin <= r2 <= r && cmin <= c2 <= cmax && (r2 < r || c2 < c)
                    && (radius == 0 || r2 == rmin || r2 == rmax || c2 == cmin || c2 == cmax)
                    && bucket_index(r2, c2) < candidate_bucket(best)
                    ==> #[trigger] bucket_farther(bs@, r2, c2, *cur, best_dist as int),
                candidate_bucket(best) < bucket_index(r as int, c as int),
                candidate_ok(bs@, *cur, rad, best, best_dist),
                candidate_first(bs@, *cur, best),
            decreases cmax + 1 - c,
        {
            let is_edge = radius == 0 || r == rmin || r == rmax || c == cmin || c == cmax;
            let ghost old_dist = best_dist;
            let ghost old_best = best;
            if is_edge {
                let (nb, nd) = consider_bucket(bs, cur, radius, r, c, best, best_dist);
                best = nb;
                best_dist = nd;
            }
            assert forall|r2: int, c2: int| rmin <= r2 <= r && cmin <= c2 <= cmax && (r2 < r || c2 < c + 1)
                && (radius == 0 || r2 == rmin || r2 == rmax || c2 == cmin || c2 == cmax)
                implies #[trigger] bucket_no_nearer(bs@, r2, c2, *cur, best_dist as int) by {
                if r2 < r || c2 < c {
                    assert(bucket_no_nearer(bs@, r2, c2, *cur, old_dist as int));
                }
            }
            assert forall|r2: int, c2: int| rmin <= r2 <= r && cmin <= c2 <= cmax && (r2 < r || c2 < c + 1)
                && (radius == 0 || r2 == rmin || r2 == rmax || c2 == cmin || c2 == cmax)
                && bucket_index(r2, c2) < candidate_bucket(best)
                implies #[trigger] bucket_farther(bs@, r2, c2, *cur, best_dist as int) by {
                if best_dist < old_dist {
                    if r2 < r || c2 < c {
                        assert(bucket_no_nearer(bs@, r2, c2, *cur, old_dist as int));
                    }
                } else if r2 < r || c2 < c {
                    assert(bucket_farther(bs@, r2, c2, *cur, old_dist as int));
                }
            }
            c = c + 1;
        }
        r = r + 1;
    }
    proof {
        assert forall|r2: int, c2: int| 0 <= r2 < 13 && 0 <= c2 < 33 && bucket_distance(cri, cci, r2, c2) == rad
            implies rmin <= r2 <= rmax && cmin <= c2 <= cmax
                && (radius == 0 || r2 == rmin || r2 == rmax || c2 == cmin || c2 == cmax) by {
        }
        if best is None {
            assert forall|r2: int, c2: int| 0 <= r2 < 13 && 0 <= c2 < 33 && bucket_distance(cri, cci, r2, c2) < rad + 1
                implies (#[trigger] bs@[bucket_index(r2, c2)])@.len() == 0 by {
                if bucket_distance(cri, cci, r2, c2) == rad {
                    assert(bucket_no_nearer(bs@, r2, c2, *cur, u32::MAX as int));
                    if bs@[bucket_index(r2, c2)]@.len() > 0 {
                        let q = bs@[bucket_index(r2, c2)]@[0];
                        assert(u32::MAX <= shared::manhattan(*cur, q));
                    }
                }
            }
        }
    }
    best
}

/// The next point of a nearest-neighbour path from `cur`: rings of buckets
/// are searched outward from the bucket of `cur`, and in the first ring that
/// holds a point, the first point nearest to `cur` is taken.
fn find_nearest(bs: &Vec<Vec<Coordinates>>, cur: &Coordinates) -> (r: Option<(usize, usize)>)
    requires
        buckets_wf(bs@),
        in_grid(*cur),
    ensures
        match r {
            None => forall|q: Coordinates| grid_count(bs@, q) == 0,
            Some((b, i)) => b < 429 && i < bs@[b as int]@.len() && in_grid(bs@[b as int]@[i as int])
                && b == bucket_index(bucket_row(bs@[b as int]@[i as int]), bucket_col(bs@[b as int]@[i as int]))
                && (forall|q: Coordinates| grid_count(bs@, q) > 0 ==> nn_prefers(*cur, bs@[b as int]@[i as int], q))
                && forall|b2: int, j: int| 0 <= b2 < 429 && 0 <= j < bs@[b2]@.len() && position_before(b2, j, b as int, i as int)
                    ==> !nn_prefers(*cur, #[trigger] bs@[b2]@[j], bs@[b as int]@[i as int]),
        },
{
    let cr: usize = (cur.y / 10) as usize;
    let cc: usize = (cur.x / 10) as usize;
    let mut radius: usize = 0;
    while radius <= 33
        invariant
            buckets_wf(bs@),
            in_grid(*cur),
            cr == bucket_row(*cur),
            cc == bucket_col(*cur),
            radius <= 34,
            inner_empty(bs@, cr as int, cc as int, radius as int),
        decreases 34 - radius,
    {
        match scan_ring(bs, cur, cr, cc, radius) {
            Some((b, i, d)) => {
                proof {
                    let p = bs@[b as int]@[i as int];
                    assert forall|q: Coordinates| grid_count(bs@, q) > 0 implies nn_prefers(*cur, p, q) by {
                        lemma_counted_member(bs@, q);
                        let rq = bucket_row(q);
                        let cq = bucket_col(q);
                        let qb = bucket_index(rq, cq);
                        let k = choose|k: int| 0 <= k < bs@[qb]@.len() && bs@[qb]@[k] == q;
                        if bucket_distance(cr as int, cc as int, rq, cq) == radius {
                            assert(bucket_no_nearer(bs@, rq, cq, *cur, d as int));
                            assert(d <= shared::manhattan(*cur, bs@[qb]@[k]));
                        } else if bucket_distance(cr as int, cc as int, rq, cq) < radius {
                            assert(bs@[bucket_index(rq, cq)]@.len() == 0);
                        }
                    }
                    assert forall|b2: int, j: int| 0 <= b2 < 429 && 0 <= j < bs@[b2]@.len() && position_before(b2, j, b as int, i as int)
                        implies !nn_prefers(*cur, #[trigger] bs@[b2]@[j], p) by {
                        let rq = b2 / 33;
                        let cq = b2 % 33;
                        assert(b2 == bucket_index(rq, cq));
                        let q = bs@[b2]@[j];
                        assert(bucket_row(q) == rq && bucket_col(q) == cq);
                        if bucket_distance(cr as int, cc as int, rq, cq) < radius {
                            assert(bs@[bucket_index(rq, cq)]@.len() == 0);
                        } else if bucket_distance(cr as int, cc as int, rq, cq) == radius {
                            if b2 < b {
                                assert(bucket_farther(bs@, rq, cq, *cur, d as int));
                            }
                        }
                    }
                }
                return Some((b, i));
            },
            None => {},
        }
        radius = radius + 1;
    }
    proof {
        assert forall|q: Coordinates| grid_count(bs@, q) == 0 by {
            if grid_count(bs@, q) > 0 {
                lemma_counted_member(bs@, q);
                assert(bs@[bucket_index(bucket_row(q), bucket_col(q))]@.len() == 0);
            }
        }
    }
    None
}

proof fn lemma_first_index(s: Seq<Coordinates>, i: int)
    requires
        0 <= i < s.len(),
        forall|j: int| 0 <= j < i ==> s[j] != s[i],
    ensures
        s.index_of_first(s[i]) == Some(i),
{
    s.index_of_first_ensures(s[i]);
    assert(s.contains(s[i]));
    match s.index_of_first(s[i]) {
        Some(k) => {
            if k < i {
                assert(s[k] == s[i]);
            }
        },
        None => {},
    }
}

/// Taking the opening point out of the freshly filled buckets.
proof fn lemma_nn_opening(points: Seq<Coordinates>, v0: Seq<Seq<Coordinates>>, v1: Seq<Seq<Coordinates>>,
    s: Coordinates, b: int, i: int)
    requires
        v0 == initial_buckets(points),
        0 <= b < 429,
        home_bucket(s) == b,
        0 <= i < v0[b].len(),
        v0[b][i] == s,
        v1 == v0.update(b, v0[b].update(i, v0[b].last()).drop_last()),
        forall|b2: int, j: int| 0 <= b2 < 429 && 0 <= j < v0[b2].len() && position_before(b2, j, b, i)
            ==> !nn_start_ok(#[trigger] v0[b2][j], s),
    ensures
        v1 == buckets_after(points, seq![s]),
        first_start(initial_buckets(points), s),
{
    assert forall|j: int| 0 <= j < i implies v0[b][j] != v0[b][i] by {
        assert(!nn_start_ok(v0[b][j], s));
    }
    lemma_first_index(v0[b], i);
    assert(seq![s].drop_last() =~= Seq::<Coordinates>::empty());
    assert(buckets_after(points, Seq::<Coordinates>::empty()) == v0);
    assert(v0[home_bucket(s)][i] == s);
}

/// Taking the next point out of the buckets, after the points of `done`.
proof fn lemma_nn_next(points: Seq<Coordinates>, done: Seq<Coordinates>, v0: Seq<Seq<Coordinates>>,
    v1: Seq<Seq<Coordinates>>, p: Coordinates, b: int, i: int)
    requires
        done.len() >= 1,
        v0 == buckets_after(points, done),
        v0.len() == 429,
        0 <= b < 429,
        home_bucket(p) == b,
        0 <= i < v0[b].len(),
        v0[b][i] == p,
        v1 == v0.update(b, v0[b].update(i, v0[b].last()).drop_last()),
        forall|b2: int, j: int| 0 <= b2 < 429 && 0 <= j < v0[b2].len() && position_before(b2, j, b, i)
            ==> !nn_prefers(done.last(), #[trigger] v0[b2][j], p),
        forall|k: int| 0 <= k < done.len() - 1
            ==> #[trigger] first_nearest(buckets_after(points, done.take(k + 1)), done[k], done[k + 1]),
    ensures
        v1 == buckets_after(points, done.push(p)),
        forall|k: int| 0 <= k < done.push(p).len() - 1
            ==> #[trigger] first_nearest(buckets_after(points, done.push(p).take(k + 1)), done.push(p)[k], done.push(p)[k + 1]),
{
    let cur = done.last();
    assert forall|j: int| 0 <= j < i implies v0[b][j] != v0[b][i] by {
        assert(!nn_prefers(cur, v0[b][j], p));
    }
    lemma_first_index(v0[b], i);
    let path = done.push(p);
    assert(path.drop_last() =~= done);
    assert(v0[home_bucket(p)][i] == p);
    assert(first_nearest(v0, cur, p));
    assert forall|k: int| 0 <= k < path.len() - 1
        implies #[trigger] first_nearest(buckets_after(points, path.take(k + 1)), path[k], path[k + 1]) by {
        if k < done.len() - 1 {
            assert(path.take(k + 1) =~= done.take(k + 1));
            assert(first_nearest(buckets_after(points, done.take(k + 1)), done[k], done[k + 1]));
        } else {
            assert(path.take(k + 1) =~= done);
        }
    }
}

proof fn lemma_bucket_first_in_input(pts: Seq<Coordinates>, b: int, i0: int)
    requires
        0 <= i0 < bucket_points(pts, b).len(),
        forall|k: int| 0 <= k < i0
            ==> !nn_start_ok(#[trigger] bucket_points(pts, b)[k], bucket_points(pts, b)[i0]),
    ensures
        exists|i: int| 0 <= i < pts.len() && pts[i] == bucket_points(pts, b)[i0]
            && forall|j: int| 0 <= j < i && in_grid(#[trigger] pts[j]) && home_bucket(pts[j]) == b
                ==> !nn_start_ok(pts[j], bucket_points(pts, b)[i0]),
    decreases pts.len(),
{
    let f = |q: Coordinates| in_grid(q) && home_bucket(q) == b;
    let d = pts.drop_last();
    let x = pts.last();
    let s = bucket_points(pts, b)[i0];
    assert(pts =~= d.push(x));
    lemma_bucket_points_push(d, x, b);
    let fd = bucket_points(d, b);
    if f(x) && i0 == fd.len() {
        let i = pts.len() - 1;
        assert(pts[i] == s);
        assert forall|j: int| 0 <= j < i && in_grid(#[trigger] pts[j]) && home_bucket(pts[j]) == b
            implies !nn_start_ok(pts[j], s) by {
            assert(d[j] == pts[j]);
            d.lemma_filter_contains(f, j);
            assert(fd.contains(d[j]));
            let k = choose|k: int| 0 <= k < fd.len() && fd[k] == d[j];
            assert(bucket_points(pts, b)[k] == fd[k]);
        }
    } else {
        assert(i0 < fd.len());
        assert forall|k: int| 0 <= k < i0 implies !nn_start_ok(#[trigger] fd[k], fd[i0]) by {
            assert(bucket_points(pts, b)[k] == fd[k]);
        }
        assert(fd[i0] == s);
        lemma_bucket_first_in_input(d, b, i0);
        let i = choose|i: int| 0 <= i < d.len() && d[i] == fd[i0]
            && forall|j: int| 0 <= j < i && in_grid(#[trigger] d[j]) && home_bucket(d[j]) == b
                ==> !nn_start_ok(d[j], fd[i0]);
        assert(pts[i] == s);
        assert forall|j: int| 0 <= j < i && in_grid(#[trigger] pts[j]) && home_bucket(pts[j]) == b
            implies !nn_start_ok(pts[j], s) by {
            assert(d[j] == pts[j]);
        }
    }
}

/// The point a nearest-neighbour ordering opens with is the first point of
/// `pts`, in input order, that no point may open before: it is a point of
/// `pts`, and every kept point before it there opens strictly later.
pub proof fn lemma_opening_first_in_input(pts: Seq<Coordinates>, r: Seq<Coordinates>)
    requires
        is_nearest_neighbor_order(pts, r),
        r.len() > 0,
    ensures
        exists|i: int| 0 <= i < pts.len() && pts[i] == r[0]
            && forall|j: int| 0 <= j < i && in_grid(#[trigger] pts[j]) ==> !nn_start_ok(pts[j], r[0]),
{
    let s = r[0];
    let bs = initial_buckets(pts);
    let b = home_bucket(s);
    let i0 = choose|i: int| 0 <= i < bs[home_bucket(s)].len() && #[trigger] bs[home_bucket(s)][i] == s
        && forall|b2: int, j: int| 0 <= b2 < bs.len() && 0 <= j < bs[b2].len() && position_before(b2, j, home_bucket(s), i)
            ==> !nn_start_ok(#[trigger] bs[b2][j], s);
    assert(r.contains(s)) by {
        assert(r[0] == s);
    }
    assert(r.to_multiset().count(s) > 0);
    assert(kept_count(pts, s) > 0);
    assert(in_grid(s));
    lemma_bucket_index_bounds(bucket_row(s), bucket_col(s));
    assert(bs[b] == bucket_points(pts, b));
    assert forall|k: int| 0 <= k < i0
        implies !nn_start_ok(#[trigger] bucket_points(pts, b)[k], bucket_points(pts, b)[i0]) by {
        assert(bs[b][k] == bucket_points(pts, b)[k]);
    }
    lemma_bucket_first_in_input(pts, b, i0);
    let i = choose|i: int| 0 <= i < pts.len() && pts[i] == bucket_points(pts, b)[i0]
        && forall|j: int| 0 <= j < i && in_grid(#[trigger] pts[j]) && home_bucket(pts[j]) == b
            ==> !nn_start_ok(pts[j], bucket_points(pts, b)[i0]);
    assert forall|j: int| 0 <= j < i && in_grid(#[trigger] pts[j]) implies !nn_start_ok(pts[j], s) by {
        let q = pts[j];
        let bq = home_bucket(q);
        lemma_bucket_index_bounds(bucket_row(q), bucket_col(q));
        if bq < b {
            let f = |c: Coordinates| in_grid(c) && home_bucket(c) == bq;
            pts.lemma_filter_contains(f, j);
            assert(bs[bq] == bucket_points(pts, bq));
            let k = choose|k: int| 0 <= k < bs[bq].len() && bs[bq][k] == q;
            assert(!nn_start_ok(bs[bq][k], s));
        }
    }
}

/// The grid points of `points` in nearest-neighbour order: the path opens at
/// the point of least `x + y` in the first non-empty 10x10 bucket (in
/// row-major order) and goes on each time to a nearest remaining point, looked
/// for ring by ring around the current bucket. Points outside the 330x130 area
/// of the buckets are left out.
pub fn nearest_neighbor_order(points: &Vec<Coordinates>) -> (r: Vec<Coordinates>)
    ensures
        is_nearest_neighbor_order(points@, r@),
{
    let mut bs = fill_buckets(points);
    let mut path: Vec<Coordinates> = Vec::new();
    let (b0, i0) = match find_start(&bs) {
        None => {
            proof {
                assert forall|q: Coordinates| path@.to_multiset().count(q) == kept_count(points@, q) by {
                    assert(grid_count(bs@, q) == kept_count(points@, q));
                }
            }
            return path;
        },
        Some(found) => found,
    };
    let ghost bs0 = bs@;
    let mut cur = bs[b0].swap_remove(i0);
    proof {
        lemma_swap_remove_multiset(bs0[b0 as int]@, i0 as int);
        assert(bs@ == bs0.update(b0 as int, bs@[b0 as int]));
        assert forall|r: int, c: int, j: int| 0 <= r < 13 && 0 <= c < 33 && 0 <= j < bs@[bucket_index(r, c)]@.len()
            implies bucket_row(#[trigger] bs@[bucket_index(r, c)]@[j]) == r && bucket_col(bs@[bucket_index(r, c)]@[j]) == c by {
            if bucket_index(r, c) == b0 {
                if j == i0 {
                    assert(bs@[b0 as int]@[j] == bs0[b0 as int]@.last());
                    assert(bs0[b0 as int]@.last() == bs0[bucket_index(r, c)]@[bs0[b0 as int]@.len() - 1]);
                } else {
                    assert(bs@[b0 as int]@[j] == bs0[b0 as int]@[j]);
                }
            } else {
                assert(bs@[bucket_index(r, c)] == bs0[bucket_index(r, c)]);
            }
        }
        let v0 = bucket_views(bs0);
        assert forall|b2: int, j: int| 0 <= b2 < 429 && 0 <= j < v0[b2].len() && position_before(b2, j, b0 as int, i0 as int)
            implies !nn_start_ok(#[trigger] v0[b2][j], cur) by {
            assert(v0[b2] == bs0[b2]@);
            assert(!nn_start_ok(bs0[b2]@[j], bs0[b0 as int]@[i0 as int]));
        }
        assert(bucket_views(bs@) =~~= v0.update(b0 as int, v0[b0 as int].update(i0 as int, v0[b0 as int].last()).drop_last()));
        lemma_nn_opening(points@, v0, bucket_views(bs@), cur, b0 as int, i0 as int);
    }
    path.push(cur);
    proof {
        assert(path@ =~= seq![cur]);
        assert forall|q: Coordinates| path@.to_multiset().count(q) + grid_count(bs@, q) == kept_count(points@, q) by {
            assert(grid_count(bs0, q) == kept_count(points@, q));
            assert(path@ =~= Seq::<Coordinates>::empty().push(cur));
            if in_grid(q) {
                let qb = bucket_index(bucket_row(q), bucket_col(q));
                if qb != b0 {
                    assert(bs@[qb] == bs0[qb]);
                    assert(q != cur);
                } else {
                    assert(bs@[b0 as int]@.to_multiset() =~= bs0[b0 as int]@.to_multiset().remove(cur));
                }
            } else {
                assert(q != cur);
            }
        }
        assert forall|q: Coordinates| grid_count(bs@, q) > 0 implies nn_start_ok(path@[0], q) by {
            assert(grid_count(bs0, q) > 0) by {
                if in_grid(q) {
                    let qb = bucket_index(bucket_row(q), bucket_col(q));
                    if qb != b0 {
                        assert(bs@[qb] == bs0[qb]);
                    } else {
                        assert(bs@[b0 as int]@.to_multiset() =~= bs0[b0 as int]@.to_multiset().remove(cur));
                    }
                }
            }
        }
    }
    loop
        invariant
            buckets_wf(bs@),
            path@.len() >= 1,
            cur == path@.last(),
            in_grid(cur),
            forall|q: Coordinates| path@.to_multiset().count(q) + grid_count(bs@, q) == kept_count(points@, q),
            forall|j: int| 0 <= j < path@.len() ==> nn_start_ok(path@[0], #[trigger] path@[j]),
            forall|q: Coordinates| grid_count(bs@, q) > 0 ==> nn_start_ok(path@[0], q),
            forall|k: int, j: int| 0 <= k < j < path@.len() ==> nn_prefers(#[trigger] path@[k], path@[k + 1], #[trigger] path@[j]),
            forall|k: int, q: Coordinates| 0 <= k < path@.len() - 1 && grid_count(bs@, q) > 0
                ==> #[trigger] nn_prefers(path@[k], path@[k + 1], q),
            bs@.len() == 429,
            bucket_views(bs@) == buckets_after(points@, path@),
            first_start(initial_buckets(points@), path@[0]),
            forall|k: int| 0 <= k < path@.len() - 1
                ==> #[trigger] first_nearest(buckets_after(points@, path@.take(k + 1)), path@[k], path@[k + 1]),
        decreases lens_sum(bs@),
    {
        match find_nearest(&bs, &cur) {
            None => {
                proof {
                    assert forall|q: Coordinates| path@.to_multiset().count(q) == kept_count(points@, q) by {
                        assert(path@.to_multiset().count(q) + grid_count(bs@, q) == kept_count(points@, q));
                    }
                }
                return path;
            },
            Some((b, i)) => {
                let ghost old_bs = bs@;
                let ghost old_path = path@;
                let p = bs[b].swap_remove(i);
                proof {
                    let v0 = bucket_views(old_bs);
                    assert forall|b2: int, j: int| 0 <= b2 < 429 && 0 <= j < v0[b2].len() && position_before(b2, j, b as int, i as int)
                        implies !nn_prefers(old_path.last(), #[trigger] v0[b2][j], p) by {
                        assert(v0[b2] == old_bs[b2]@);
                        assert(!nn_prefers(cur, old_bs[b2]@[j], old_bs[b as int]@[i as int]));
                    }
                    assert(bs@ == old_bs.update(b as int, bs@[b as int]));
                    assert(bucket_views(bs@) =~~= v0.update(b as int, v0[b as int].update(i as int, v0[b as int].last()).drop_last()));
                    assert(v0[b as int][i as int] == p);
                    lemma_nn_next(points@, old_path, v0, bucket_views(bs@), p, b as int, i as int);
                }
                proof {
                    lemma_lens_sum_update(old_bs, b as int, bs@[b as int]);
                    lemma_swap_remove_multiset(old_bs[b as int]@, i as int);
                    assert(bs@ == old_bs.update(b as int, bs@[b as int]));
                    assert forall|r: int, c: int, j: int| 0 <= r < 13 && 0 <= c < 33 && 0 <= j < bs@[bucket_index(r, c)]@.len()
                        implies bucket_row(#[trigger] bs@[bucket_index(r, c)]@[j]) == r && bucket_col(bs@[bucket_index(r, c)]@[j]) == c by {
                        if bucket_index(r, c) == b {
                            if j == i {
                                assert(bs@[b as int]@[j] == old_bs[b as int]@.last());
                                assert(old_bs[b as int]@.last() == old_bs[bucket_index(r, c)]@[old_bs[b as int]@.len() - 1]);
                            } else {
                                assert(bs@[b as int]@[j] == old_bs[b as int]@[j]);
                            }
                        } else {
                            assert(bs@[bucket_index(r, c)] == old_bs[bucket_index(r, c)]);
                        }
                    }
                    assert(grid_count(old_bs, p) > 0) by {
                        lemma_member_counts(old_bs, bucket_row(p), bucket_col(p), i as int);
                    }
                    assert forall|q: Coordinates| #[trigger] grid_count(bs@, q) > 0 implies grid_count(old_bs, q) > 0 by {
                        if in_grid(q) {
                            let qb = bucket_index(bucket_row(q), bucket_col(q));
                            if qb != b {
                                assert(bs@[qb] == old_bs[qb]);
                            } else {
                                assert(bs@[b as int]@.to_multiset() =~= old_bs[b as int]@.to_multiset().remove(p));
                            }
                        }
                    }
                }
                path.push(p);
                proof {
                    assert(path@ == old_path.push(p));
                    assert forall|q: Coordinates| path@.to_multiset().count(q) + grid_count(bs@, q) == kept_count(points@, q) by {
                        assert(old_path.to_multiset().count(q) + grid_count(old_bs, q) == kept_count(points@, q));
                        if in_grid(q) {
                            let qb = bucket_index(bucket_row(q), bucket_col(q));
                            if qb != b {
                                assert(bs@[qb] == old_bs[qb]);
                                assert(q != p);
                            } else {
                                assert(bs@[b as int]@.to_multiset() =~= old_bs[b as int]@.to_multiset().remove(p));
                            }
                        } else {
                            assert(q != p);
                        }
                    }
                    assert forall|j: int| 0 <= j < path@.len() implies nn_start_ok(path@[0], #[trigger] path@[j]) by {
                        if j < old_path.len() {
                            assert(path@[j] == old_path[j]);
                        }
                    }
                    assert forall|k: int, j: int| 0 <= k < j < path@.len()
                        implies nn_prefers(#[trigger] path@[k], path@[k + 1], #[trigger] path@[j]) by {
                        if j < old_path.len() {
                            assert(path@[j] == old_path[j]);
                            assert(path@[k] == old_path[k]);
                            assert(path@[k + 1] == old_path[k + 1]);
                        } else if k < old_path.len() - 1 {
                            assert(path@[k] == old_path[k]);
                            assert(path@[k + 1] == old_path[k + 1]);
                        }
                    }
                    assert forall|k: int, q: Coordinates| 0 <= k < path@.len() - 1 && grid_count(bs@, q) > 0
                        implies #[trigger] nn_prefers(path@[k], path@[k + 1], q) by {
                        assert(grid_count(old_bs, q) > 0);
                        if k < old_path.len() - 1 {
                            assert(path@[k] == old_path[k]);
                            assert(path@[k + 1] == old_path[k + 1]);
                        }
                    }
                }
                cur = p;
            },
        }
    }
}

} // verus!
